//! What the last step of a build makes of the objects, and what it is given.
use vstd::prelude::*;

use crate::command::CommandView;
use crate::compiled::{follows, lemma_steps, lemma_within, succeeds};
use crate::env::{link_env_flags, EnvVars};
use crate::flagged::{held_for_all, held_for_one, lemma_link_options, lemma_seven, link_vars};
use crate::flagged::{takes, takes_vars};
use crate::fs::FsView;
use crate::link::{arg_applies, args_for, dependency_libraries, dir_args, dirs_of_kind};
use crate::link::{library_args, library_name};
use crate::link::{link_input_args, output_args, output_dirs, output_links, LinkInputsView};
use crate::link::NativeLinkContext;
use crate::native::NativeCompilerFamily;
use crate::outputs::{BuildOutput, BuildScriptOutputs, DescriptorView, LibraryPath};
use crate::path::{holds_path, same_path};
use crate::plan::{files_of, has_cpp, work_of, BuildContext, StepView, WorkView};
use crate::profile::{crt_link_args, crt_static, gnu_lto_args, gnu_strip_args};
use crate::profile::{profile_link_args, Lto, NativeProfile, Strip};
use crate::propagate::{gives_library, lemma_libraries_propagate};
use crate::text::{holds_text, texts, Text};
use crate::units::{primary_output, UnitGraph};

verus! {

/// The command that the last step runs.
pub open spec fn last_command(steps: Seq<StepView>) -> CommandView {
    steps.last()->Run_0
}

/// What is built.
pub open spec fn built(work: WorkView) -> Text {
    primary_output(files_of(work.unit))->0
}

/// A build that does not fail ends with a command, in the environment of the tools.
pub proof fn lemma_ends_with_command(
    work: WorkView,
    env: EnvVars,
    outputs: BuildScriptOutputs,
    fs: FsView,
)
    requires
        succeeds(work.steps(env, outputs, fs)),
    ensures
        work.steps(env, outputs, fs).len() > 0,
        work.steps(env, outputs, fs).last() is Run,
        last_command(work.steps(env, outputs, fs)).env == work.toolchain.env,
{
    let steps = work.steps(env, outputs, fs);
    lemma_steps(work, env, outputs, fs);
    assert(!(steps[steps.len() - 1] is Fail));
}

/// A static library is made by the archiver, of the objects and of nothing else.
pub proof fn lemma_static_library(
    work: WorkView,
    env: EnvVars,
    outputs: BuildScriptOutputs,
    fs: FsView,
)
    requires
        succeeds(work.steps(env, outputs, fs)),
        work.unit.target.is_staticlib,
    ensures
        ({
            let cmd = last_command(work.steps(env, outputs, fs));
            &&& work.toolchain.ar == Some(cmd.program)
            &&& match work.toolchain.family {
                NativeCompilerFamily::GnuLike => cmd.args == seq!["crs"@, built(work)]
                    + work.objects(built(work)),
                NativeCompilerFamily::MsvcLike => cmd.args == seq![
                    "/nologo"@,
                    "/OUT:"@ + built(work),
                ] + work.objects(built(work)),
            }
        }),
{
    let steps = work.steps(env, outputs, fs);
    lemma_steps(work, env, outputs, fs);
    assert(!(steps[steps.len() - 1] is Fail));
}

/// Without an archiver no static library is built.
pub proof fn lemma_no_archiver(
    work: WorkView,
    env: EnvVars,
    outputs: BuildScriptOutputs,
    fs: FsView,
)
    requires
        work.unit.target.is_staticlib,
        work.toolchain.ar is None,
    ensures
        !succeeds(work.steps(env, outputs, fs)),
{
    let steps = work.steps(env, outputs, fs);
    if succeeds(steps) {
        lemma_steps(work, env, outputs, fs);
        assert(steps[steps.len() - 1] is Fail);
    }
}

/// The parts of the last command, where objects are linked.
proof fn lemma_link_parts(
    work: WorkView,
    env: EnvVars,
    outputs: BuildScriptOutputs,
    fs: FsView,
)
    requires
        succeeds(work.steps(env, outputs, fs)),
        !work.unit.target.is_staticlib,
    ensures
        ({
            let cmd = last_command(work.steps(env, outputs, fs));
            let family = work.toolchain.family;
            let shared = work.unit.target.is_cdylib || work.unit.target.is_dylib;
            let lead = match family {
                NativeCompilerFamily::GnuLike => Seq::<Text>::empty(),
                NativeCompilerFamily::MsvcLike => if shared {
                    seq!["/nologo"@, "/LD"@]
                } else {
                    seq!["/nologo"@]
                },
            };
            let tail = match family {
                NativeCompilerFamily::GnuLike => if shared {
                    seq!["-shared"@, "-o"@, built(work)]
                } else {
                    seq!["-o"@, built(work)]
                },
                NativeCompilerFamily::MsvcLike => seq!["/Fe"@ + built(work)],
            };
            &&& cmd.args == lead + work.objects(built(work)) + (profile_link_args(
                work.unit.profile,
                family,
            ) + crt_link_args(
                crt_static(work.kind.cfgs@),
                work.kind.target_triple@,
                family,
                has_cpp(work.sources),
            )) + link_env_flags(env, work.kind.target_triple@, work.link_config_args)
                + link_input_args(family, work.link_inputs(outputs), work.link_context()) + tail
                + work.link_inputs(outputs).dependency_libraries
        }),
{
    lemma_steps(work, env, outputs, fs);
    let cmd = last_command(work.steps(env, outputs, fs));
    let family = work.toolchain.family;
    let none = Seq::<Text>::empty();
    let objects = work.objects(built(work));
    assert(none + objects =~= objects);
}

/// A `cdylib` or a `dylib` is linked as a shared library, and all that is linked is
/// written to what is built.
pub proof fn lemma_shared_library(
    work: WorkView,
    env: EnvVars,
    outputs: BuildScriptOutputs,
    fs: FsView,
)
    requires
        succeeds(work.steps(env, outputs, fs)),
        !work.unit.target.is_staticlib,
    ensures
        ({
            let args = last_command(work.steps(env, outputs, fs)).args;
            let shared = work.unit.target.is_cdylib || work.unit.target.is_dylib;
            &&& match work.toolchain.family {
                NativeCompilerFamily::GnuLike => {
                    &&& shared ==> args.contains("-shared"@)
                    &&& follows(args, "-o"@, built(work))
                },
                NativeCompilerFamily::MsvcLike => {
                    &&& shared ==> args.contains("/LD"@)
                    &&& args.contains("/Fe"@ + built(work))
                },
            }
        }),
{
    lemma_link_parts(work, env, outputs, fs);
    let args = last_command(work.steps(env, outputs, fs)).args;
    let libraries = work.link_inputs(outputs).dependency_libraries;
    match work.toolchain.family {
        NativeCompilerFamily::GnuLike => {
            let tail = if work.unit.target.is_cdylib || work.unit.target.is_dylib {
                seq!["-shared"@, "-o"@, built(work)]
            } else {
                seq!["-o"@, built(work)]
            };
            let before = args.take(args.len() - tail.len() - libraries.len());
            assert(args =~= before + tail + libraries);
            let n = tail.len() as int;
            assert(tail[n - 2] == "-o"@ && tail[n - 1] == built(work));
            assert(follows(tail, "-o"@, built(work)));
            if n == 3 {
                assert(tail[0] == "-shared"@);
                assert(tail.contains("-shared"@));
            }
            lemma_within(before, tail, libraries);
        },
        NativeCompilerFamily::MsvcLike => {
            let tail = seq!["/Fe"@ + built(work)];
            let before = args.take(args.len() - tail.len() - libraries.len());
            assert(args =~= before + tail + libraries);
            assert(tail[0] == "/Fe"@ + built(work));
            assert(tail.contains("/Fe"@ + built(work)));
            lemma_within(before, tail, libraries);
            if work.unit.target.is_cdylib || work.unit.target.is_dylib {
                assert(args[1] == "/LD"@);
            }
        },
    }
}

/// Something that is given to the linker for this unit, other than by the linker call
/// itself: an object, an option of the environment or the configuration, what the
/// manifest or a build script sets, a library, or what is built.
pub open spec fn is_given(
    arg: Text,
    work: WorkView,
    env: EnvVars,
    outputs: BuildScriptOutputs,
) -> bool {
    let inputs = work.link_inputs(outputs);
    ||| work.objects(built(work)).contains(arg)
    ||| link_env_flags(env, work.kind.target_triple@, work.link_config_args).contains(arg)
    ||| output_dirs(inputs.build_outputs, true).contains(arg)
    ||| output_dirs(inputs.build_outputs, false).contains(arg)
    ||| inputs.manifest_library_search_dirs.contains(arg)
    ||| output_args(inputs.build_outputs, work.link_context()).contains(arg)
    ||| inputs.manifest_link_args.contains(arg)
    ||| inputs.dependency_libraries.contains(arg)
    ||| arg == built(work)
}

/// What is neither a `cdylib` nor a `dylib` is not linked as a shared library, unless
/// something that is given asks for it.
pub proof fn lemma_executable(
    work: WorkView,
    env: EnvVars,
    outputs: BuildScriptOutputs,
    fs: FsView,
)
    requires
        succeeds(work.steps(env, outputs, fs)),
        !work.unit.target.is_staticlib,
        !work.unit.target.is_cdylib,
        !work.unit.target.is_dylib,
    ensures
        ({
            let args = last_command(work.steps(env, outputs, fs)).args;
            match work.toolchain.family {
                NativeCompilerFamily::GnuLike => args.contains("-shared"@) ==> is_given(
                    "-shared"@,
                    work,
                    env,
                    outputs,
                ),
                NativeCompilerFamily::MsvcLike => args.contains("/LD"@) ==> is_given(
                    "/LD"@,
                    work,
                    env,
                    outputs,
                ),
            }
        }),
{
    lemma_link_parts(work, env, outputs, fs);
    let family = work.toolchain.family;
    let inputs = work.link_inputs(outputs);
    let flag = match family {
        NativeCompilerFamily::GnuLike => "-shared"@,
        NativeCompilerFamily::MsvcLike => "/LD"@,
    };
    let lead = match family {
        NativeCompilerFamily::GnuLike => Seq::<Text>::empty(),
        NativeCompilerFamily::MsvcLike => seq!["/nologo"@],
    };
    let tail = match family {
        NativeCompilerFamily::GnuLike => seq!["-o"@, built(work)],
        NativeCompilerFamily::MsvcLike => seq!["/Fe"@ + built(work)],
    };
    let crt = crt_link_args(
        crt_static(work.kind.cfgs@),
        work.kind.target_triple@,
        family,
        has_cpp(work.sources),
    );
    let profile = profile_link_args(work.unit.profile, family);
    let flags = link_env_flags(env, work.kind.target_triple@, work.link_config_args);
    let given = link_input_args(family, inputs, work.link_context());
    lemma_seven(
        lead,
        work.objects(built(work)),
        profile + crt,
        flags,
        given,
        tail,
        inputs.dependency_libraries,
    );
    lemma_words_apart(family);
    lemma_not_in_profile(work.unit.profile, family);
    lemma_not_in_crt(crt_static(work.kind.cfgs@), work.kind.target_triple@, family, has_cpp(work.sources));
    lemma_add(profile, crt, flag);
    lemma_not_in_inputs(family, inputs, work.link_context());
    if tail.contains(flag) {
        let i = choose|i: int| 0 <= i < tail.len() && tail[i] == flag;
        match family {
            NativeCompilerFamily::GnuLike => {},
            NativeCompilerFamily::MsvcLike => {
                reveal_strlit("/Fe");
                reveal_strlit("/LD");
                assert(tail[0][1] == 'F');
                assert("/LD"@[1] == 'L');
            },
        }
    }
    if lead.contains(flag) {
        let i = choose|i: int| 0 <= i < lead.len() && lead[i] == flag;
        assert(lead[0] == "/nologo"@);
    }
}

proof fn lemma_add(a: Seq<Text>, b: Seq<Text>, x: Text)
    ensures
        (a + b).contains(x) <==> a.contains(x) || b.contains(x),
{
    let none = Seq::<Text>::empty();
    assert(a + b =~= a + b + none + none + none + none + none);
    lemma_seven(a, b, none, none, none, none, none);
}

proof fn lemma_words_apart(family: NativeCompilerFamily)
    ensures
        "-o"@ != "-shared"@,
        "-L"@ != "-shared"@,
        "/nologo"@ != "/LD"@,
{
    reveal_strlit("-o");
    reveal_strlit("-L");
    reveal_strlit("-shared");
    reveal_strlit("/nologo");
    reveal_strlit("/LD");
    assert("-o"@.len() == 2 && "-L"@.len() == 2 && "-shared"@.len() == 7);
    assert("/nologo"@.len() == 7 && "/LD"@.len() == 3);
}

proof fn lemma_not_in_profile(profile: NativeProfile, family: NativeCompilerFamily)
    ensures
        family == NativeCompilerFamily::GnuLike ==> !profile_link_args(profile, family).contains(
            "-shared"@,
        ),
        family == NativeCompilerFamily::MsvcLike ==> !profile_link_args(profile, family).contains(
            "/LD"@,
        ),
{
    reveal_strlit("-shared");
    reveal_strlit("/LD");
    reveal_strlit("-flto");
    reveal_strlit("-flto=");
    reveal_strlit("-Wl,-S");
    reveal_strlit("-s");
    reveal_strlit("-Wl,--strip-");
    reveal_strlit("/DEBUG");
    reveal_strlit("/LTCG");
    let args = profile_link_args(profile, family);
    assert("-shared"@[1] == 's' && "-shared"@.len() == 7);
    assert("/LD"@.len() == 3);
    assert("-flto"@[1] == 'f' && "-Wl,-S"@[1] == 'W' && "-s"@.len() == 2);
    assert("/DEBUG"@.len() == 6 && "/LTCG"@.len() == 5);
    match family {
        NativeCompilerFamily::GnuLike => {
            let a = gnu_lto_args(profile.lto);
            let b = gnu_strip_args(profile.strip);
            lemma_add(a, b, "-shared"@);
            if a.contains("-shared"@) {
                let i = choose|i: int| 0 <= i < a.len() && a[i] == "-shared"@;
                assert(a[0][1] == 'f');
            }
            if b.contains("-shared"@) {
                let i = choose|i: int| 0 <= i < b.len() && b[i] == "-shared"@;
                assert(b[0][1] == 'W' || b[0].len() == 2);
            }
        },
        NativeCompilerFamily::MsvcLike => {
            if args.contains("/LD"@) {
                let i = choose|i: int| 0 <= i < args.len() && args[i] == "/LD"@;
                assert(args[i].len() == 6 || args[i].len() == 5);
            }
        },
    }
}

proof fn lemma_not_in_crt(on: bool, triple: Text, family: NativeCompilerFamily, cpp: bool)
    ensures
        !crt_link_args(on, triple, family, cpp).contains("-shared"@),
        family == NativeCompilerFamily::MsvcLike ==> crt_link_args(on, triple, family, cpp).len()
            == 0,
{
    reveal_strlit("-shared");
    reveal_strlit("-static-libgcc");
    reveal_strlit("-static-libstdc++");
    let args = crt_link_args(on, triple, family, cpp);
    assert("-shared"@.len() == 7 && "-static-libgcc"@.len() == 14);
    assert("-static-libstdc++"@.len() == 17);
    if args.contains("-shared"@) {
        let i = choose|i: int| 0 <= i < args.len() && args[i] == "-shared"@;
        assert(args[i].len() == 14 || args[i].len() == 17);
    }
}

proof fn lemma_dir_args_hold(dirs: Seq<Text>, family: NativeCompilerFamily, x: Text)
    requires
        dir_args(dirs, family).contains(x),
    ensures
        match family {
            NativeCompilerFamily::GnuLike => x == "-L"@ || dirs.contains(x),
            NativeCompilerFamily::MsvcLike => exists|i: int|
                0 <= i < dirs.len() && x == "/LIBPATH:"@ + #[trigger] dirs[i],
        },
    decreases dirs.len(),
{
    let all = dir_args(dirs, family);
    let i = choose|i: int| 0 <= i < all.len() && all[i] == x;
    if dirs.len() > 0 {
        let front = dirs.drop_last();
        let before = dir_args(front, family);
        assert(dirs.last() == dirs[dirs.len() - 1]);
        if i < before.len() {
            assert(before[i] == x);
            lemma_dir_args_hold(front, family, x);
            match family {
                NativeCompilerFamily::GnuLike => {
                    if x != "-L"@ {
                        let k = choose|k: int| 0 <= k < front.len() && front[k] == x;
                        assert(dirs[k] == x);
                    }
                },
                NativeCompilerFamily::MsvcLike => {
                    let k = choose|k: int|
                        0 <= k < front.len() && x == "/LIBPATH:"@ + #[trigger] front[k];
                    assert(dirs[k] == front[k]);
                },
            }
        }
    }
}

proof fn lemma_not_in_inputs(
    family: NativeCompilerFamily,
    inputs: LinkInputsView,
    context: NativeLinkContext,
)
    ensures
        ({
            let flag = match family {
                NativeCompilerFamily::GnuLike => "-shared"@,
                NativeCompilerFamily::MsvcLike => "/LD"@,
            };
            link_input_args(family, inputs, context).contains(flag) ==> {
                ||| output_dirs(inputs.build_outputs, true).contains(flag)
                ||| output_dirs(inputs.build_outputs, false).contains(flag)
                ||| inputs.manifest_library_search_dirs.contains(flag)
                ||| output_args(inputs.build_outputs, context).contains(flag)
                ||| inputs.manifest_link_args.contains(flag)
            }
        }),
{
    let flag = match family {
        NativeCompilerFamily::GnuLike => "-shared"@,
        NativeCompilerFamily::MsvcLike => "/LD"@,
    };
    let none = Seq::<Text>::empty();
    let a = output_dirs(inputs.build_outputs, true);
    let b = output_dirs(inputs.build_outputs, false);
    let c = inputs.manifest_library_search_dirs;
    let dirs = a + b + c;
    let s1 = dir_args(dirs, family);
    let s2 = output_args(inputs.build_outputs, context);
    let s3 = inputs.manifest_link_args;
    let links = output_links(inputs.build_outputs) + inputs.manifest_library_links;
    let s4 = library_args(links, family);
    let all = link_input_args(family, inputs, context);
    assert(all =~= s1 + s2 + s3 + s4 + none + none + none);
    lemma_seven(s1, s2, s3, s4, none, none, none);
    assert(dirs =~= a + b + c + none + none + none + none);
    lemma_seven(a, b, c, none, none, none, none);
    lemma_words_apart(family);
    reveal_strlit("-shared");
    reveal_strlit("/LD");
    reveal_strlit("-l");
    reveal_strlit(".lib");
    reveal_strlit("/LIBPATH:");
    if s1.contains(flag) {
        lemma_dir_args_hold(dirs, family, flag);
        if family == NativeCompilerFamily::MsvcLike {
            let k = choose|k: int| 0 <= k < dirs.len() && flag == "/LIBPATH:"@ + #[trigger] dirs[k];
            assert(("/LIBPATH:"@ + dirs[k]).len() >= 9);
            assert("/LD"@.len() == 3);
        }
    }
    if s4.contains(flag) {
        let k = choose|k: int| 0 <= k < s4.len() && s4[k] == flag;
        let name = library_name(links[k]);
        match family {
            NativeCompilerFamily::GnuLike => {
                assert(s4[k] == "-l"@ + name);
                assert(("-l"@ + name)[1] == 'l');
                assert("-shared"@[1] == 's');
            },
            NativeCompilerFamily::MsvcLike => {
                assert(s4[k] == name + ".lib"@);
                assert((name + ".lib"@).len() >= 4);
                assert("/LD"@.len() == 3);
            },
        }
    }
}

/// The linker is given each object, each option of the configuration and the environment
/// for it, and each library of the dependencies.
pub proof fn lemma_link_given(
    work: WorkView,
    env: EnvVars,
    outputs: BuildScriptOutputs,
    fs: FsView,
)
    requires
        succeeds(work.steps(env, outputs, fs)),
        !work.unit.target.is_staticlib,
    ensures
        ({
            let args = last_command(work.steps(env, outputs, fs)).args;
            &&& takes(args, work.objects(built(work)))
            &&& takes(args, work.link_config_args)
            &&& takes_vars(args, env, link_vars(work.kind.target_triple@))
            &&& takes(args, work.link_inputs(outputs).dependency_libraries)
        }),
{
    lemma_link_parts(work, env, outputs, fs);
    lemma_contained(work, env, outputs, fs);
    let args = last_command(work.steps(env, outputs, fs)).args;
    let triple = work.kind.target_triple@;
    let flags = link_env_flags(env, triple, work.link_config_args);
    lemma_link_options(env, triple, work.link_config_args);
    let vars = link_vars(triple);
    lemma_takes_through(args, flags, work.link_config_args);
    lemma_takes_through(args, flags, held_for_all(env, vars));
    lemma_takes_through(args, flags, held_for_one(env, vars));
    lemma_takes_through(args, flags, crate::flagged::words_in(env.utf8_value_of(vars.plain)));
    let objects = work.objects(built(work));
    assert forall|i: int| 0 <= i < objects.len() implies args.contains(#[trigger] objects[i]) by {
        assert(objects.contains(objects[i]));
    }
    let libraries = work.link_inputs(outputs).dependency_libraries;
    assert forall|i: int| 0 <= i < libraries.len() implies args.contains(
        #[trigger] libraries[i],
    ) by {
        assert(libraries.contains(libraries[i]));
    }
}

proof fn lemma_takes_through(args: Seq<Text>, flags: Seq<Text>, part: Seq<Text>)
    requires
        forall|x: Text| flags.contains(x) ==> #[trigger] args.contains(x),
        takes(flags, part),
    ensures
        takes(args, part),
{
    assert forall|i: int| 0 <= i < part.len() implies args.contains(#[trigger] part[i]) by {
        assert(flags.contains(part[i]));
    }
}

/// What each part of the last command holds, the command holds.
proof fn lemma_contained(work: WorkView, env: EnvVars, outputs: BuildScriptOutputs, fs: FsView)
    requires
        succeeds(work.steps(env, outputs, fs)),
        !work.unit.target.is_staticlib,
    ensures
        ({
            let args = last_command(work.steps(env, outputs, fs)).args;
            let family = work.toolchain.family;
            let triple = work.kind.target_triple@;
            let inputs = work.link_inputs(outputs);
            let given = link_input_args(family, inputs, work.link_context());
            &&& forall|x: Text| work.objects(built(work)).contains(x) ==> #[trigger] args.contains(x)
            &&& forall|x: Text|
                profile_link_args(work.unit.profile, family).contains(x) ==> #[trigger] args.contains(x)
            &&& forall|x: Text|
                crt_link_args(
                    crt_static(work.kind.cfgs@),
                    triple,
                    family,
                    has_cpp(work.sources),
                ).contains(x) ==> #[trigger] args.contains(x)
            &&& forall|x: Text|
                link_env_flags(env, triple, work.link_config_args).contains(x)
                    ==> #[trigger] args.contains(x)
            &&& forall|x: Text| given.contains(x) ==> #[trigger] args.contains(x)
            &&& forall|a: Text, b: Text| follows(given, a, b) ==> #[trigger] follows(args, a, b)
            &&& forall|x: Text| inputs.dependency_libraries.contains(x) ==> #[trigger] args.contains(x)
        }),
{
    lemma_link_parts(work, env, outputs, fs);
    let args = last_command(work.steps(env, outputs, fs)).args;
    let family = work.toolchain.family;
    let triple = work.kind.target_triple@;
    let inputs = work.link_inputs(outputs);
    let given = link_input_args(family, inputs, work.link_context());
    let shared = work.unit.target.is_cdylib || work.unit.target.is_dylib;
    let lead = match family {
        NativeCompilerFamily::GnuLike => Seq::<Text>::empty(),
        NativeCompilerFamily::MsvcLike => if shared {
            seq!["/nologo"@, "/LD"@]
        } else {
            seq!["/nologo"@]
        },
    };
    let tail = match family {
        NativeCompilerFamily::GnuLike => if shared {
            seq!["-shared"@, "-o"@, built(work)]
        } else {
            seq!["-o"@, built(work)]
        },
        NativeCompilerFamily::MsvcLike => seq!["/Fe"@ + built(work)],
    };
    let profile = profile_link_args(work.unit.profile, family);
    let crt = crt_link_args(crt_static(work.kind.cfgs@), triple, family, has_cpp(work.sources));
    let flags = link_env_flags(env, triple, work.link_config_args);
    let objects = work.objects(built(work));
    lemma_seven(lead, objects, profile + crt, flags, given, tail, inputs.dependency_libraries);
    assert forall|x: Text| profile.contains(x) implies #[trigger] args.contains(x) by {
        lemma_add(profile, crt, x);
    }
    assert forall|x: Text| crt.contains(x) implies #[trigger] args.contains(x) by {
        lemma_add(profile, crt, x);
    }
    lemma_middle(lead, objects, profile + crt, flags, given, tail, inputs.dependency_libraries);
}

proof fn lemma_middle(
    s0: Seq<Text>,
    s1: Seq<Text>,
    s2: Seq<Text>,
    s3: Seq<Text>,
    s4: Seq<Text>,
    s5: Seq<Text>,
    s6: Seq<Text>,
)
    ensures
        forall|a: Text, b: Text|
            follows(s4, a, b) ==> #[trigger] follows(s0 + s1 + s2 + s3 + s4 + s5 + s6, a, b),
{
    let before = s0 + s1 + s2 + s3;
    assert(s0 + s1 + s2 + s3 + s4 + s5 + s6 =~= before + s4 + (s5 + s6));
    lemma_within(before, s4, s5 + s6);
}

/// The library of each unit that is reached from a unit is given to its linker.
pub proof fn lemma_dependencies_linked(
    ctx: BuildContext,
    graph: UnitGraph,
    u: int,
    x: int,
    work: WorkView,
    outputs: BuildScriptOutputs,
    fs: FsView,
    path: Text,
)
    requires
        graph.wf(),
        0 <= u < graph.size(),
        work_of(ctx, graph, u) == Ok::<Option<WorkView>, Text>(Some(work)),
        succeeds(work.steps(ctx.env, outputs, fs)),
        !work.unit.target.is_staticlib,
        graph.reaches(u, x),
        gives_library(graph.units@[x], path),
    ensures
        exists|at: Text| #[trigger]
            same_path(at, path) && last_command(
                work.steps(ctx.env, outputs, fs),
            ).args.contains(at),
{
    lemma_libraries_propagate(ctx, graph, u, work, outputs, path);
    lemma_link_given(work, ctx.env, outputs, fs);
    let libraries = work.link_inputs(outputs).dependency_libraries;
    let k = choose|k: int| 0 <= k < libraries.len() && same_path(#[trigger] libraries[k], path);
    let at = libraries[k];
    assert(same_path(at, path));
}

/// The directory is one that the linker is told to look for libraries in.
pub open spec fn searches(args: Seq<Text>, dir: Text, family: NativeCompilerFamily) -> bool {
    match family {
        NativeCompilerFamily::GnuLike => follows(args, "-L"@, dir),
        NativeCompilerFamily::MsvcLike => args.contains("/LIBPATH:"@ + dir),
    }
}

/// The library is one that the linker is told to link.
pub open spec fn links(args: Seq<Text>, library: Text, family: NativeCompilerFamily) -> bool {
    match family {
        NativeCompilerFamily::GnuLike => args.contains("-l"@ + library),
        NativeCompilerFamily::MsvcLike => args.contains(library + ".lib"@),
    }
}

proof fn lemma_searches(dirs: Seq<Text>, family: NativeCompilerFamily, i: int)
    requires
        0 <= i < dirs.len(),
    ensures
        searches(dir_args(dirs, family), dirs[i], family),
    decreases dirs.len(),
{
    let front = dirs.drop_last();
    let before = dir_args(front, family);
    let all = dir_args(dirs, family);
    let tail = all.skip(before.len() as int);
    assert(all =~= Seq::<Text>::empty() + before + tail);
    lemma_within(Seq::empty(), before, tail);
    if i < front.len() {
        assert(front[i] == dirs[i]);
        lemma_searches(front, family, i);
    } else {
        let n = before.len() as int;
        match family {
            NativeCompilerFamily::GnuLike => {
                assert(all[n] == "-L"@ && all[n + 1] == dirs[i]);
            },
            NativeCompilerFamily::MsvcLike => {
                assert(all[n] == "/LIBPATH:"@ + dirs[i]);
            },
        }
    }
}

/// What goes into a link reaches the linker: the directories of libraries, the options,
/// and the libraries by their names.
proof fn lemma_inputs_reach(
    family: NativeCompilerFamily,
    inputs: LinkInputsView,
    context: NativeLinkContext,
)
    ensures
        ({
            let args = link_input_args(family, inputs, context);
            let dirs = output_dirs(inputs.build_outputs, true) + output_dirs(
                inputs.build_outputs,
                false,
            ) + inputs.manifest_library_search_dirs;
            let libraries = output_links(inputs.build_outputs) + inputs.manifest_library_links;
            &&& forall|i: int| 0 <= i < dirs.len() ==> searches(args, #[trigger] dirs[i], family)
            &&& forall|i: int|
                0 <= i < libraries.len() ==> links(
                    args,
                    library_name(#[trigger] libraries[i]),
                    family,
                )
            &&& takes(args, output_args(inputs.build_outputs, context))
            &&& takes(args, inputs.manifest_link_args)
        }),
{
    let args = link_input_args(family, inputs, context);
    let none = Seq::<Text>::empty();
    let dirs = output_dirs(inputs.build_outputs, true) + output_dirs(inputs.build_outputs, false)
        + inputs.manifest_library_search_dirs;
    let libraries = output_links(inputs.build_outputs) + inputs.manifest_library_links;
    let s1 = dir_args(dirs, family);
    let s2 = output_args(inputs.build_outputs, context);
    let s3 = inputs.manifest_link_args;
    let s4 = library_args(libraries, family);
    assert(args =~= none + s1 + (s2 + s3 + s4));
    lemma_within(none, s1, s2 + s3 + s4);
    assert(args =~= s1 + s2 + s3 + s4 + none + none + none);
    lemma_seven(s1, s2, s3, s4, none, none, none);
    assert forall|i: int| 0 <= i < dirs.len() implies searches(args, #[trigger] dirs[i], family) by {
        lemma_searches(dirs, family, i);
    }
    assert forall|i: int| 0 <= i < libraries.len() implies links(
        args,
        library_name(#[trigger] libraries[i]),
        family,
    ) by {
        assert(s4.contains(s4[i]));
    }
    assert forall|i: int| 0 <= i < s2.len() implies args.contains(#[trigger] s2[i]) by {
        assert(s2.contains(s2[i]));
    }
    assert forall|i: int| 0 <= i < s3.len() implies args.contains(#[trigger] s3[i]) by {
        assert(s3.contains(s3[i]));
    }
}

/// What the manifest sets for the linker reaches it: the directories that libraries are
/// looked for in, the libraries, and the options.
pub proof fn lemma_manifest_linked(
    work: WorkView,
    env: EnvVars,
    outputs: BuildScriptOutputs,
    fs: FsView,
)
    requires
        succeeds(work.steps(env, outputs, fs)),
        !work.unit.target.is_staticlib,
    ensures
        ({
            let args = last_command(work.steps(env, outputs, fs)).args;
            let target = work.unit.target;
            let family = work.toolchain.family;
            &&& forall|i: int|
                0 <= i < target.native_link_search@.len() ==> searches(
                    args,
                    (#[trigger] target.native_link_search@[i])@,
                    family,
                )
            &&& forall|i: int|
                0 <= i < target.native_link_libraries@.len() ==> links(
                    args,
                    library_name((#[trigger] target.native_link_libraries@[i])@),
                    family,
                )
            &&& forall|i: int|
                0 <= i < target.native_link_args@.len() ==> args.contains(
                    (#[trigger] target.native_link_args@[i])@,
                )
        }),
{
    lemma_contained(work, env, outputs, fs);
    let args = last_command(work.steps(env, outputs, fs)).args;
    let target = work.unit.target;
    let family = work.toolchain.family;
    let inputs = work.link_inputs(outputs);
    let context = work.link_context();
    let given = link_input_args(family, inputs, context);
    lemma_inputs_reach(family, inputs, context);
    let built_dirs = output_dirs(inputs.build_outputs, true);
    let other_dirs = output_dirs(inputs.build_outputs, false);
    let dirs = built_dirs + other_dirs + inputs.manifest_library_search_dirs;
    let found = output_links(inputs.build_outputs);
    let libraries = found + inputs.manifest_library_links;
    assert forall|i: int| 0 <= i < target.native_link_search@.len() implies searches(
        args,
        (#[trigger] target.native_link_search@[i])@,
        family,
    ) by {
        let n = built_dirs.len() + other_dirs.len();
        assert(dirs[n + i] == target.native_link_search@[i]@);
        assert(searches(given, dirs[n + i], family));
    }
    assert forall|i: int| 0 <= i < target.native_link_libraries@.len() implies links(
        args,
        library_name((#[trigger] target.native_link_libraries@[i])@),
        family,
    ) by {
        assert(libraries[found.len() + i] == target.native_link_libraries@[i]@);
        assert(links(given, library_name(libraries[found.len() + i]), family));
    }
    assert forall|i: int| 0 <= i < target.native_link_args@.len() implies args.contains(
        (#[trigger] target.native_link_args@[i])@,
    ) by {
        assert(inputs.manifest_link_args[i] == target.native_link_args@[i]@);
        assert(given.contains(inputs.manifest_link_args[i]));
    }
}

proof fn lemma_output_dirs(list: Seq<BuildOutput>, k: int, i: int, built_ones: bool)
    requires
        0 <= k < list.len(),
        0 <= i < list[k].library_paths@.len(),
        list[k].library_paths@[i] is CargoArtifact <==> built_ones,
    ensures
        output_dirs(list, built_ones).contains(path_in(list[k].library_paths@[i])),
    decreases list.len(),
{
    let front = list.drop_last();
    let before = output_dirs(front, built_ones);
    let more = dirs_of_kind(list.last().library_paths@, built_ones);
    let x = path_in(list[k].library_paths@[i]);
    lemma_add(before, more, x);
    if k < front.len() {
        assert(front[k] == list[k]);
        lemma_output_dirs(front, k, i, built_ones);
    } else {
        lemma_dirs_of_kind(list[k].library_paths@, i, built_ones);
    }
}

/// The directory itself.
pub open spec fn path_in(path: LibraryPath) -> Text {
    match path {
        LibraryPath::CargoArtifact(dir) => dir@,
        LibraryPath::External(dir) => dir@,
    }
}

proof fn lemma_dirs_of_kind(list: Seq<LibraryPath>, i: int, built_ones: bool)
    requires
        0 <= i < list.len(),
        list[i] is CargoArtifact <==> built_ones,
    ensures
        dirs_of_kind(list, built_ones).contains(path_in(list[i])),
    decreases list.len(),
{
    let front = list.drop_last();
    let before = dirs_of_kind(front, built_ones);
    let all = dirs_of_kind(list, built_ones);
    if i < front.len() {
        assert(front[i] == list[i]);
        lemma_dirs_of_kind(front, i, built_ones);
        let k = choose|k: int| 0 <= k < before.len() && before[k] == path_in(list[i]);
        assert(all[k] == before[k]);
    } else {
        assert(all[all.len() - 1] == path_in(list[i]));
    }
}

proof fn lemma_output_links(list: Seq<BuildOutput>, k: int, i: int)
    requires
        0 <= k < list.len(),
        0 <= i < list[k].library_links@.len(),
    ensures
        output_links(list).contains(list[k].library_links@[i]@),
    decreases list.len(),
{
    let front = list.drop_last();
    let before = output_links(front);
    let more = texts(list.last().library_links@);
    lemma_add(before, more, list[k].library_links@[i]@);
    if k < front.len() {
        assert(front[k] == list[k]);
        lemma_output_links(front, k, i);
    } else {
        assert(more[i] == list[k].library_links@[i]@);
        assert(more.contains(more[i]));
    }
}

proof fn lemma_args_for(
    list: Seq<(crate::outputs::LinkArgTarget, String)>,
    context: NativeLinkContext,
    i: int,
)
    requires
        0 <= i < list.len(),
        arg_applies(list[i].0, context),
    ensures
        args_for(list, context).contains(list[i].1@),
    decreases list.len(),
{
    let front = list.drop_last();
    let before = args_for(front, context);
    let all = args_for(list, context);
    if i < front.len() {
        assert(front[i] == list[i]);
        lemma_args_for(front, context, i);
        let k = choose|k: int| 0 <= k < before.len() && before[k] == list[i].1@;
        assert(all[k] == before[k]);
    } else {
        assert(all[all.len() - 1] == list[i].1@);
    }
}

proof fn lemma_output_args(list: Seq<BuildOutput>, context: NativeLinkContext, k: int, i: int)
    requires
        0 <= k < list.len(),
        0 <= i < list[k].linker_args@.len(),
        arg_applies(list[k].linker_args@[i].0, context),
    ensures
        output_args(list, context).contains(list[k].linker_args@[i].1@),
    decreases list.len(),
{
    let front = list.drop_last();
    let before = output_args(front, context);
    let more = args_for(list.last().linker_args@, context);
    lemma_add(before, more, list[k].linker_args@[i].1@);
    if k < front.len() {
        assert(front[k] == list[k]);
        lemma_output_args(front, context, k, i);
    } else {
        lemma_args_for(list[k].linker_args@, context, i);
    }
}

/// What an output of a build script declares for the linker reaches it: its directories,
/// its libraries, and those of its options that are for the target.
pub proof fn lemma_outputs_linked(
    work: WorkView,
    env: EnvVars,
    outputs: BuildScriptOutputs,
    fs: FsView,
    k: int,
)
    requires
        succeeds(work.steps(env, outputs, fs)),
        !work.unit.target.is_staticlib,
        0 <= k < work.link_inputs(outputs).build_outputs.len(),
    ensures
        ({
            let args = last_command(work.steps(env, outputs, fs)).args;
            let family = work.toolchain.family;
            let output = work.link_inputs(outputs).build_outputs[k];
            &&& forall|i: int|
                0 <= i < output.library_paths@.len() ==> searches(
                    args,
                    path_in(#[trigger] output.library_paths@[i]),
                    family,
                )
            &&& forall|i: int|
                0 <= i < output.library_links@.len() ==> links(
                    args,
                    library_name((#[trigger] output.library_links@[i])@),
                    family,
                )
            &&& forall|i: int|
                0 <= i < output.linker_args@.len() && arg_applies(
                    (#[trigger] output.linker_args@[i]).0,
                    work.link_context(),
                ) ==> args.contains(output.linker_args@[i].1@)
        }),
{
    lemma_contained(work, env, outputs, fs);
    let args = last_command(work.steps(env, outputs, fs)).args;
    let family = work.toolchain.family;
    let inputs = work.link_inputs(outputs);
    let context = work.link_context();
    let given = link_input_args(family, inputs, context);
    lemma_inputs_reach(family, inputs, context);
    let list = inputs.build_outputs;
    let output = list[k];
    let a = output_dirs(list, true);
    let b = output_dirs(list, false);
    let dirs = a + b + inputs.manifest_library_search_dirs;
    let found = output_links(list);
    let libraries = found + inputs.manifest_library_links;
    assert forall|i: int| 0 <= i < output.library_paths@.len() implies searches(
        args,
        path_in(#[trigger] output.library_paths@[i]),
        family,
    ) by {
        let p = output.library_paths@[i];
        lemma_output_dirs(list, k, i, p is CargoArtifact);
        if p is CargoArtifact {
            let n = choose|n: int| 0 <= n < a.len() && a[n] == path_in(p);
            assert(dirs[n] == path_in(p));
            assert(searches(given, dirs[n], family));
        } else {
            let n = choose|n: int| 0 <= n < b.len() && b[n] == path_in(p);
            assert(dirs[a.len() + n] == path_in(p));
            assert(searches(given, dirs[a.len() + n], family));
        }
    }
    assert forall|i: int| 0 <= i < output.library_links@.len() implies links(
        args,
        library_name((#[trigger] output.library_links@[i])@),
        family,
    ) by {
        lemma_output_links(list, k, i);
        let n = choose|n: int| 0 <= n < found.len() && found[n] == output.library_links@[i]@;
        assert(libraries[n] == output.library_links@[i]@);
        assert(links(given, library_name(libraries[n]), family));
    }
    let own = output_args(list, context);
    assert forall|i: int|
        0 <= i < output.linker_args@.len() && arg_applies(
            (#[trigger] output.linker_args@[i]).0,
            work.link_context(),
        ) implies args.contains(output.linker_args@[i].1@) by {
        lemma_output_args(list, context, k, i);
        let n = choose|n: int| 0 <= n < own.len() && own[n] == output.linker_args@[i].1@;
        assert(given.contains(own[n]));
    }
}

/// What the profile asks for reaches the linker, and where the C runtime is linked
/// statically, so do the options for that.
pub proof fn lemma_profile_linked(
    work: WorkView,
    env: EnvVars,
    outputs: BuildScriptOutputs,
    fs: FsView,
)
    requires
        succeeds(work.steps(env, outputs, fs)),
        !work.unit.target.is_staticlib,
    ensures
        ({
            let args = last_command(work.steps(env, outputs, fs)).args;
            let profile = work.unit.profile;
            match work.toolchain.family {
                NativeCompilerFamily::GnuLike => {
                    &&& profile.lto == Lto::Bool(true) ==> args.contains("-flto"@)
                    &&& profile.lto matches Lto::Named(name) ==> args.contains("-flto="@ + name@)
                    &&& profile.strip matches Strip::Named(name) ==> {
                        &&& name@ == "debuginfo"@ ==> args.contains("-Wl,-S"@)
                        &&& name@ == "symbols"@ ==> args.contains("-s"@)
                        &&& name@ != "debuginfo"@ && name@ != "symbols"@ ==> args.contains(
                            "-Wl,--strip-"@ + name@,
                        )
                    }
                    &&& crt_static(work.kind.cfgs@) && !holds_text(
                        work.kind.target_triple@,
                        "windows-gnullvm"@,
                    ) ==> args.contains("-static-libgcc"@) && (has_cpp(work.sources)
                        ==> args.contains("-static-libstdc++"@))
                },
                NativeCompilerFamily::MsvcLike => {
                    &&& profile.lto == Lto::Bool(true) || profile.lto is Named ==> args.contains(
                        "/LTCG"@,
                    )
                    &&& profile.debuginfo && !(profile.strip matches Strip::Named(name) && name@
                        == "debuginfo"@) ==> args.contains("/DEBUG"@)
                },
            }
        }),
{
    lemma_contained(work, env, outputs, fs);
    let args = last_command(work.steps(env, outputs, fs)).args;
    let profile = work.unit.profile;
    let family = work.toolchain.family;
    let own = profile_link_args(profile, family);
    let crt = crt_link_args(
        crt_static(work.kind.cfgs@),
        work.kind.target_triple@,
        family,
        has_cpp(work.sources),
    );
    reveal_strlit("debuginfo");
    reveal_strlit("symbols");
    assert("debuginfo"@.len() == 9 && "symbols"@.len() == 7);
    assert forall|i: int| 0 <= i < own.len() implies args.contains(#[trigger] own[i]) by {
        assert(own.contains(own[i]));
    }
    assert forall|i: int| 0 <= i < crt.len() implies args.contains(#[trigger] crt[i]) by {
        assert(crt.contains(crt[i]));
    }
    match family {
        NativeCompilerFamily::GnuLike => {
            let a = gnu_lto_args(profile.lto);
            let b = gnu_strip_args(profile.strip);
            if a.len() > 0 {
                assert(own[0] == a[0]);
            }
            if b.len() > 0 {
                assert(own[a.len() as int] == b[0]);
            }
            if crt.len() > 0 {
                assert(args.contains(crt[0]));
            }
            if crt.len() > 1 {
                assert(args.contains(crt[1]));
            }
        },
        NativeCompilerFamily::MsvcLike => {
            if own.len() > 0 {
                assert(args.contains(own[0]));
            }
            if own.len() > 1 {
                assert(args.contains(own[1]));
            }
        },
    }
}

/// The linker meets the objects first, and the libraries of the dependencies last, in
/// their order.
pub proof fn lemma_link_order(
    work: WorkView,
    env: EnvVars,
    outputs: BuildScriptOutputs,
    fs: FsView,
)
    requires
        succeeds(work.steps(env, outputs, fs)),
        !work.unit.target.is_staticlib,
    ensures
        ({
            let args = last_command(work.steps(env, outputs, fs)).args;
            let objects = work.objects(built(work));
            let libraries = work.link_inputs(outputs).dependency_libraries;
            let shared = work.unit.target.is_cdylib || work.unit.target.is_dylib;
            let start: int = match work.toolchain.family {
                NativeCompilerFamily::GnuLike => 0,
                NativeCompilerFamily::MsvcLike => if shared {
                    2
                } else {
                    1
                },
            };
            &&& start + objects.len() + libraries.len() <= args.len()
            &&& args.subrange(start, start + objects.len()) == objects
            &&& args.skip(args.len() - libraries.len()) == libraries
        }),
{
    lemma_link_parts(work, env, outputs, fs);
    let args = last_command(work.steps(env, outputs, fs)).args;
    let objects = work.objects(built(work));
    let libraries = work.link_inputs(outputs).dependency_libraries;
    let start: int = match work.toolchain.family {
        NativeCompilerFamily::GnuLike => 0,
        NativeCompilerFamily::MsvcLike => if work.unit.target.is_cdylib
            || work.unit.target.is_dylib {
            2
        } else {
            1
        },
    };
    assert(args.subrange(start, start + objects.len()) =~= objects);
    assert(args.skip(args.len() - libraries.len()) =~= libraries);
}

/// The libraries of dependencies stand in the order of the dependencies: one more
/// dependency adds its library at the end, unless that is there already.
pub proof fn lemma_libraries_in_order(list: Seq<DescriptorView>, d: DescriptorView)
    ensures
        match d.output_path {
            Some(path) => dependency_libraries(list.push(d)) == if holds_path(
                dependency_libraries(list),
                path,
            ) {
                dependency_libraries(list)
            } else {
                dependency_libraries(list).push(path)
            },
            None => dependency_libraries(list.push(d)) == dependency_libraries(list),
        },
        dependency_libraries(Seq::empty()).len() == 0,
{
    assert(list.push(d).drop_last() =~= list);
}

} // verus!
