//! What the commands tell the compiler: the source and the object, where headers are,
//! and what the manifest, the profile, the features and the configuration ask for.
use vstd::prelude::*;

use crate::command::CommandView;
use crate::env::{compile_env_flags, EnvVars};
use crate::flagged::{held_for_source, lemma_compile_options, lemma_compile_order};
use crate::flagged::{lemma_compile_parts, lemma_seven, takes};
use crate::fs::FsView;
use crate::layout::{depfile_of, depfiles_of};
use crate::native::{language_of, NativeCompilerFamily, NativeSourceLanguage};
use crate::order::{is_covered, lemma_unique_order, stable_order, without_repeats};
use crate::outputs::BuildScriptOutputs;
use crate::path::{codes, lemma_codes, sorted_texts, text_key, text_keys};
use crate::plan::{file_dir_steps, files_of, native_lead, object_dir_steps, KindContext};
use crate::plan::{StepView, WorkView};
use crate::profile::{cfg_arg, cfg_args, cfg_name_arg, crt_compile_args, crt_static, define_args};
use crate::profile::{envified, feature_args, one_if, profile_compile_args, shared_compile_args};
use crate::profile::{told_cfgs, Cfg, Lto, NativeProfile};
use crate::text::{texts, Text};
use crate::toolchain::ToolchainView;
use crate::tools::{compile_command, depfile_args, include_args, CompileArgsView};
use crate::units::{primary_output, Unit};

verus! {

/// The argument `b` stands directly behind the argument `a`.
pub open spec fn follows(args: Seq<Text>, a: Text, b: Text) -> bool {
    exists|i: int| 0 <= i < args.len() - 1 && #[trigger] args[i] == a && args[i + 1] == b
}

/// What the first list holds is held where lists stand before and behind it.
pub proof fn lemma_within(before: Seq<Text>, part: Seq<Text>, after: Seq<Text>)
    ensures
        forall|x: Text| part.contains(x) ==> #[trigger] (before + part + after).contains(x),
        forall|a: Text, b: Text|
            follows(part, a, b) ==> #[trigger] follows(before + part + after, a, b),
{
    let all = before + part + after;
    assert forall|x: Text| part.contains(x) implies #[trigger] all.contains(x) by {
        let i = choose|i: int| 0 <= i < part.len() && part[i] == x;
        assert(all[before.len() + i] == x);
    }
    assert forall|a: Text, b: Text| follows(part, a, b) implies #[trigger] follows(all, a, b) by {
        let i = choose|i: int| 0 <= i < part.len() - 1 && #[trigger] part[i] == a && part[i + 1] == b;
        assert(all[before.len() + i] == a);
        assert(all[before.len() + i + 1] == b);
    }
}

/// What stands in front of a macro to define.
pub open spec fn define_word(family: NativeCompilerFamily) -> Text {
    match family {
        NativeCompilerFamily::GnuLike => "-D"@,
        NativeCompilerFamily::MsvcLike => "/D"@,
    }
}

/// The arguments tell the macros that the manifest asks for.
pub open spec fn tells_defines(args: Seq<Text>, defines: Seq<Text>, family: NativeCompilerFamily) -> bool {
    forall|i: int| 0 <= i < defines.len() ==> args.contains(
        define_word(family) + #[trigger] defines[i],
    )
}

/// The arguments tell the features.
pub open spec fn tells_features(args: Seq<Text>, features: Seq<Text>, family: NativeCompilerFamily) -> bool {
    forall|i: int| 0 <= i < features.len() ==> args.contains(
        define_word(family) + "CARGO_FEATURE_"@ + envified(#[trigger] features[i]) + "=1"@,
    )
}

/// The argument that tells of a configuration value.
pub open spec fn cfg_word(cfg: Cfg, family: NativeCompilerFamily) -> Text {
    match cfg {
        Cfg::Name(name) => define_word(family) + "CARGO_CFG_"@ + envified(name@) + "=1"@,
        Cfg::KeyPair(key, value) => if value@.len() == 0 {
            define_word(family) + "CARGO_CFG_"@ + envified(key@) + "=1"@
        } else {
            define_word(family) + "CARGO_CFG_"@ + envified(key@) + "_"@ + envified(value@) + "=1"@
        },
    }
}

/// The arguments tell each configuration value; whether assertions are on is told by the
/// profile alone.
pub open spec fn tells_cfgs(
    args: Seq<Text>,
    cfgs: Seq<Cfg>,
    debug_assertions: bool,
    family: NativeCompilerFamily,
) -> bool {
    &&& forall|i: int|
        0 <= i < cfgs.len() && !(#[trigger] cfgs[i] matches Cfg::Name(name) && name@
            == "debug_assertions"@) ==> args.contains(cfg_word(cfgs[i], family))
    &&& debug_assertions ==> args.contains(
        define_word(family) + "CARGO_CFG_"@ + envified("debug_assertions"@) + "=1"@,
    )
}

/// The arguments ask for what the profile sets.
pub open spec fn tells_profile(
    args: Seq<Text>,
    profile: NativeProfile,
    family: NativeCompilerFamily,
) -> bool {
    let level = profile.opt_level@;
    match family {
        NativeCompilerFamily::GnuLike => {
            &&& level == "0"@ ==> args.contains("-O0"@)
            &&& level == "1"@ ==> args.contains("-O1"@)
            &&& level == "2"@ ==> args.contains("-O2"@)
            &&& level == "3"@ ==> args.contains("-O3"@)
            &&& level == "s"@ || level == "z"@ ==> args.contains("-Os"@)
            &&& profile.debuginfo ==> args.contains("-g"@)
            &&& profile.debug_assertions ==> args.contains("-UNDEBUG"@)
            &&& !profile.debug_assertions ==> args.contains("-DNDEBUG"@)
            &&& profile.lto == Lto::Bool(true) ==> args.contains("-flto"@)
            &&& profile.lto matches Lto::Named(name) ==> args.contains("-flto="@ + name@)
        },
        NativeCompilerFamily::MsvcLike => {
            &&& level == "0"@ ==> args.contains("/Od"@)
            &&& level == "1"@ || level == "s"@ || level == "z"@ ==> args.contains("/O1"@)
            &&& level == "2"@ || level == "3"@ ==> args.contains("/O2"@)
            &&& profile.debuginfo ==> args.contains("/Z7"@)
            &&& profile.debug_assertions ==> args.contains("/UNDEBUG"@)
            &&& !profile.debug_assertions ==> args.contains("/DNDEBUG"@)
            &&& profile.lto == Lto::Bool(true) || profile.lto is Named ==> args.contains("/GL"@)
        },
    }
}

/// The arguments name the directories that headers are looked for in.
pub open spec fn tells_dirs(args: Seq<Text>, dirs: Seq<Text>, family: NativeCompilerFamily) -> bool {
    forall|i: int| 0 <= i < dirs.len() ==> match family {
        NativeCompilerFamily::GnuLike => follows(args, "-I"@, #[trigger] dirs[i]),
        NativeCompilerFamily::MsvcLike => args.contains("/I"@ + dirs[i]),
    }
}

/// The arguments name the source to compile and the object to make of it.
pub open spec fn tells_files(
    args: Seq<Text>,
    source: Text,
    object: Text,
    family: NativeCompilerFamily,
) -> bool {
    match family {
        NativeCompilerFamily::GnuLike => follows(args, "-c"@, source) && follows(args, "-o"@, object),
        NativeCompilerFamily::MsvcLike => follows(args, "/c"@, source) && args.contains(
            "/Fo"@ + object,
        ),
    }
}

/// The arguments tell all that a unit asks of a compiler.
pub open spec fn tells_unit(
    args: Seq<Text>,
    unit: Unit,
    kind: KindContext,
    family: NativeCompilerFamily,
) -> bool {
    &&& tells_defines(args, texts(unit.target.native_defines@), family)
    &&& tells_features(args, texts(unit.features@), family)
    &&& tells_cfgs(args, kind.cfgs@, unit.profile.debug_assertions, family)
    &&& tells_profile(args, unit.profile, family)
    &&& (unit.target.is_cdylib || unit.target.is_dylib) && family == NativeCompilerFamily::GnuLike
        ==> args.contains("-fPIC"@)
}

proof fn lemma_texts_kept(list: Seq<Text>, x: Text)
    requires
        list.contains(x),
    ensures
        sorted_texts(list).contains(x),
{
    let keys = text_keys(list);
    let places = without_repeats(keys, stable_order(keys));
    let k = choose|k: int| 0 <= k < list.len() && list[k] == x;
    lemma_unique_order(keys);
    assert(is_covered(keys, places, k));
    let a = choose|a: int|
        0 <= a < places.len() && keys[#[trigger] places[a]] == keys[k] && places[a] <= k;
    let y = list[places[a]];
    assert(keys[places[a]] == text_key(y));
    assert(keys[k] == text_key(x));
    assert(text_key(y)[0] == codes(y));
    assert(text_key(x)[0] == codes(x));
    lemma_codes(x, y);
    assert(sorted_texts(list)[a] == y);
}

proof fn lemma_told(cfgs: Seq<Cfg>, family: NativeCompilerFamily, i: int)
    requires
        0 <= i < cfgs.len(),
        !(cfgs[i] matches Cfg::Name(name) && name@ == "debug_assertions"@),
    ensures
        told_cfgs(cfgs, family).contains(cfg_word(cfgs[i], family)),
    decreases cfgs.len(),
{
    let front = cfgs.drop_last();
    let all = told_cfgs(cfgs, family);
    let before = told_cfgs(front, family);
    if i < front.len() {
        assert(front[i] == cfgs[i]);
        lemma_told(front, family, i);
        let k = choose|k: int| 0 <= k < before.len() && before[k] == cfg_word(cfgs[i], family);
        assert(all[k] == before[k]);
    } else {
        assert(cfg_arg(cfgs[i], family) == Some(cfg_word(cfgs[i], family)));
        assert(all[all.len() - 1] == cfg_word(cfgs[i], family));
    }
}

proof fn lemma_cfgs(debug_assertions: bool, cfgs: Seq<Cfg>, family: NativeCompilerFamily)
    ensures
        tells_cfgs(cfg_args(debug_assertions, cfgs, family), cfgs, debug_assertions, family),
{
    let own = one_if(debug_assertions, cfg_name_arg("debug_assertions"@, family));
    let told = told_cfgs(cfgs, family);
    let list = own + told;
    let args = cfg_args(debug_assertions, cfgs, family);
    assert forall|i: int|
        0 <= i < cfgs.len() && !(#[trigger] cfgs[i] matches Cfg::Name(name) && name@
            == "debug_assertions"@) implies args.contains(cfg_word(cfgs[i], family)) by {
        lemma_told(cfgs, family, i);
        let k = choose|k: int| 0 <= k < told.len() && told[k] == cfg_word(cfgs[i], family);
        assert(list[own.len() + k] == told[k]);
        lemma_texts_kept(list, cfg_word(cfgs[i], family));
    }
    if debug_assertions {
        let x = cfg_name_arg("debug_assertions"@, family);
        assert(list[0] == x);
        lemma_texts_kept(list, x);
    }
}

proof fn lemma_profile(profile: NativeProfile, family: NativeCompilerFamily)
    ensures
        tells_profile(profile_compile_args(profile, family), profile, family),
{
    let args = profile_compile_args(profile, family);
    reveal_strlit("-O");
    reveal_strlit("-O1");
    reveal_strlit("-O2");
    reveal_strlit("-O3");
    reveal_strlit("0");
    reveal_strlit("1");
    reveal_strlit("2");
    reveal_strlit("3");
    reveal_strlit("s");
    reveal_strlit("z");
    assert("0"@[0] == '0' && "1"@[0] == '1' && "2"@[0] == '2' && "3"@[0] == '3');
    assert("s"@[0] == 's' && "z"@[0] == 'z');
    assert("-O"@ + "1"@ =~= "-O1"@);
    assert("-O"@ + "2"@ =~= "-O2"@);
    assert("-O"@ + "3"@ =~= "-O3"@);
    assert(args[0] == args.first());
    assert(args[args.len() - 1] == args.last());
    if profile.debuginfo {
        assert(args[1] == if family == NativeCompilerFamily::GnuLike {
            "-g"@
        } else {
            "/Z7"@
        });
    }
    if profile.lto == Lto::Bool(true) || profile.lto is Named {
        let n: int = if profile.debuginfo {
            2
        } else {
            1
        };
        assert(args.contains(args[n]));
    }
}

/// What the options of a compile command hold, the command holds, whatever its family.
pub proof fn lemma_command_holds(
    toolchain: ToolchainView,
    args: CompileArgsView,
    language: NativeSourceLanguage,
    source: Text,
    object: Text,
    depfile: Option<Text>,
    dirs: Seq<Text>,
)
    ensures
        ({
            let cmd = compile_command(toolchain, args, language, source, object, depfile, dirs);
            &&& forall|x: Text| args.all().contains(x) ==> #[trigger] cmd.args.contains(x)
            &&& tells_files(cmd.args, source, object, toolchain.family)
            &&& tells_dirs(cmd.args, dirs, toolchain.family)
            &&& toolchain.family == NativeCompilerFamily::GnuLike ==> (depfile matches Some(d)
                ==> cmd.args.contains("-MMD"@) && follows(cmd.args, "-MF"@, d))
        }),
{
    let family = toolchain.family;
    let cmd = compile_command(toolchain, args, language, source, object, depfile, dirs);
    let all = args.all();
    let inc = include_args(dirs, family);
    lemma_include_args(dirs, family);
    match family {
        NativeCompilerFamily::GnuLike => {
            let files = seq!["-c"@, source, "-o"@, object];
            let dep = depfile_args(depfile);
            assert(cmd.args =~= Seq::<Text>::empty() + all + (files + dep + inc));
            lemma_within(Seq::empty(), all, files + dep + inc);
            assert(cmd.args =~= all + files + (dep + inc));
            assert(files[0] == "-c"@ && files[1] == source && files[2] == "-o"@ && files[3] == object);
            assert(follows(files, "-c"@, source));
            assert(follows(files, "-o"@, object));
            lemma_within(all, files, dep + inc);
            assert(cmd.args =~= (all + files) + dep + inc);
            lemma_within(all + files, dep, inc);
            if depfile is Some {
                assert(dep[0] == "-MMD"@ && dep[1] == "-MF"@ && dep[2] == depfile->0);
                assert(follows(dep, "-MF"@, depfile->0));
                assert(dep.contains("-MMD"@));
            }
            assert(cmd.args =~= (all + files + dep) + inc + Seq::empty());
            lemma_within(all + files + dep, inc, Seq::empty());
        },
        NativeCompilerFamily::MsvcLike => {
            let lead = seq!["/nologo"@];
            let files = seq!["/c"@, source, "/Fo"@ + object];
            assert(cmd.args =~= lead + all + (files + inc));
            lemma_within(lead, all, files + inc);
            assert(cmd.args =~= (lead + all) + files + inc);
            assert(files[0] == "/c"@ && files[1] == source && files[2] == "/Fo"@ + object);
            assert(follows(files, "/c"@, source));
            assert(files.contains("/Fo"@ + object));
            lemma_within(lead + all, files, inc);
            assert(cmd.args =~= (lead + all + files) + inc + Seq::empty());
            lemma_within(lead + all + files, inc, Seq::empty());
        },
    }
}

proof fn lemma_include_args(dirs: Seq<Text>, family: NativeCompilerFamily)
    ensures
        tells_dirs(include_args(dirs, family), dirs, family),
    decreases dirs.len(),
{
    if dirs.len() > 0 {
        let front = dirs.drop_last();
        let before = include_args(front, family);
        let all = include_args(dirs, family);
        lemma_include_args(front, family);
        assert forall|i: int| 0 <= i < dirs.len() implies match family {
            NativeCompilerFamily::GnuLike => follows(all, "-I"@, #[trigger] dirs[i]),
            NativeCompilerFamily::MsvcLike => all.contains("/I"@ + dirs[i]),
        } by {
            let tail = all.skip(before.len() as int);
            assert(all =~= Seq::<Text>::empty() + before + tail);
            lemma_within(Seq::empty(), before, tail);
            if i < front.len() {
                assert(front[i] == dirs[i]);
            } else {
                let n = before.len() as int;
                match family {
                    NativeCompilerFamily::GnuLike => {
                        assert(all[n] == "-I"@ && all[n + 1] == dirs[i]);
                    },
                    NativeCompilerFamily::MsvcLike => {
                        assert(all[n] == "/I"@ + dirs[i]);
                    },
                }
            }
        }
    }
}

/// What a list tells, a list that holds all of it tells.
pub proof fn lemma_unit_told(
    all: Seq<Text>,
    unit: Unit,
    kind: KindContext,
    family: NativeCompilerFamily,
    args: Seq<Text>,
)
    requires
        forall|x: Text| profile_compile_args(unit.profile, family).contains(x) ==> #[trigger] all.contains(x),
        forall|x: Text|
            shared_compile_args(unit.target.is_cdylib || unit.target.is_dylib, family).contains(x)
                ==> #[trigger] all.contains(x),
        forall|x: Text|
            feature_args(texts(unit.features@), family).contains(x) ==> #[trigger] all.contains(x),
        forall|x: Text|
            cfg_args(unit.profile.debug_assertions, kind.cfgs@, family).contains(x)
                ==> #[trigger] all.contains(x),
        forall|x: Text|
            define_args(texts(unit.target.native_defines@), family).contains(x)
                ==> #[trigger] all.contains(x),
        forall|x: Text| all.contains(x) ==> #[trigger] args.contains(x),
    ensures
        tells_unit(args, unit, kind, family),
{
    lemma_profile(unit.profile, family);
    lemma_cfgs(unit.profile.debug_assertions, kind.cfgs@, family);
    let features = texts(unit.features@);
    let defines = texts(unit.target.native_defines@);
    let f = feature_args(features, family);
    let d = define_args(defines, family);
    assert forall|i: int| 0 <= i < features.len() implies args.contains(
        define_word(family) + "CARGO_FEATURE_"@ + envified(#[trigger] features[i]) + "=1"@,
    ) by {
        assert(f[i] == define_word(family) + "CARGO_FEATURE_"@ + envified(features[i]) + "=1"@);
        assert(f.contains(f[i]));
        assert(all.contains(f[i]));
    }
    assert forall|i: int| 0 <= i < defines.len() implies args.contains(
        define_word(family) + #[trigger] defines[i],
    ) by {
        assert(d[i] == define_word(family) + defines[i]);
        assert(d.contains(d[i]));
        assert(all.contains(d[i]));
    }
    let p = profile_compile_args(unit.profile, family);
    assert(forall|x: Text| p.contains(x) ==> #[trigger] args.contains(x)) by {
        assert forall|x: Text| p.contains(x) implies #[trigger] args.contains(x) by {
            assert(all.contains(x));
        }
    }
    let c = cfg_args(unit.profile.debug_assertions, kind.cfgs@, family);
    assert(forall|x: Text| c.contains(x) ==> #[trigger] args.contains(x)) by {
        assert forall|x: Text| c.contains(x) implies #[trigger] args.contains(x) by {
            assert(all.contains(x));
        }
    }
    let sh = shared_compile_args(unit.target.is_cdylib || unit.target.is_dylib, family);
    if (unit.target.is_cdylib || unit.target.is_dylib) && family == NativeCompilerFamily::GnuLike {
        assert(sh[0] == "-fPIC"@);
        assert(sh.contains("-fPIC"@));
        assert(all.contains("-fPIC"@));
    }
}

/// The steps hold no failure.
pub open spec fn succeeds(steps: Seq<StepView>) -> bool {
    forall|k: int| 0 <= k < steps.len() ==> !(#[trigger] steps[k] is Fail)
}

/// The command compiles one source of a unit to an object: with the compiler for its
/// language, in the environment of the tools, and with all that the unit, the
/// configuration and the environment ask for.
pub open spec fn compiles(
    cmd: CommandView,
    work: WorkView,
    env: EnvVars,
    dirs: Seq<Text>,
    source: Text,
    object: Text,
) -> bool {
    let family = work.toolchain.family;
    &&& cmd.env == work.toolchain.env
    &&& language_of(source) matches Some(language) && {
        &&& language == NativeSourceLanguage::C ==> cmd.program == work.toolchain.cc
            && takes(cmd.args, work.c_config_args)
        &&& language == NativeSourceLanguage::Cpp ==> cmd.program == work.toolchain.cxx
            && takes(cmd.args, work.cxx_config_args)
        &&& takes(cmd.args, work.cpp_config_args)
        &&& takes(cmd.args, held_for_source(env, work.kind.target_triple@, language))
    }
    &&& tells_files(cmd.args, source, object, family)
    &&& tells_dirs(cmd.args, dirs, family)
    &&& tells_unit(cmd.args, work.unit, work.kind, family)
    &&& family == NativeCompilerFamily::MsvcLike ==> {
        let assertions = work.unit.profile.debug_assertions;
        let linked = crt_static(work.kind.cfgs@);
        &&& linked && assertions ==> cmd.args.contains("/MTd"@)
        &&& linked && !assertions ==> cmd.args.contains("/MT"@)
        &&& !linked && assertions ==> cmd.args.contains("/MDd"@)
        &&& !linked && !assertions ==> cmd.args.contains("/MD"@)
    }
}

/// The step that compiles a source does so.
pub proof fn lemma_compile_step(
    work: WorkView,
    env: EnvVars,
    primary: Text,
    dirs: Seq<Text>,
    i: int,
)
    requires
        0 <= i < work.sources.len(),
        language_of(work.sources[i]) is Some,
    ensures
        work.compile_step(env, primary, dirs, i) matches StepView::Run(cmd) && compiles(
            cmd,
            work,
            env,
            dirs,
            work.sources[i],
            work.objects(primary)[i],
        ) && (depfiles_of(work.objects(primary), work.toolchain.family)[i] matches Some(d)
            ==> cmd.args.contains("-MMD"@) && follows(cmd.args, "-MF"@, d)),
{
    let family = work.toolchain.family;
    let source = work.sources[i];
    let language = language_of(source)->0;
    let object = work.objects(primary)[i];
    let depfile = depfiles_of(work.objects(primary), family)[i];
    let args = work.compile_args(env, language);
    let cmd = work.compile_step(env, primary, dirs, i)->Run_0;
    let all = args.all();
    lemma_command_holds(work.toolchain, args, language, source, object, depfile, dirs);
    let profile = work.unit.profile;
    let a = profile_compile_args(profile, family);
    let b = crt_compile_args(crt_static(work.kind.cfgs@), profile.debug_assertions, family);
    let c = shared_compile_args(work.is_sharedlib(), family);
    let d = args.env_args;
    let e = args.feature_args;
    let f = args.cfg_args;
    let g = args.native_define_args;
    assert(all == a + b + c + d + e + f + g);
    lemma_seven(a, b, c, d, e, f, g);
    lemma_unit_told(all, work.unit, work.kind, family, cmd.args);
    lemma_flags_reach(work, env, language, d, cmd.args);
    if family == NativeCompilerFamily::MsvcLike {
        assert(b.contains(b[0]));
        assert(all.contains(b[0]));
    }
    assert(depfile == depfile_of(object, family));
}

proof fn lemma_flags_reach(
    work: WorkView,
    env: EnvVars,
    language: NativeSourceLanguage,
    flags: Seq<Text>,
    args: Seq<Text>,
)
    requires
        flags == compile_env_flags(
            env,
            work.kind.target_triple@,
            language,
            work.cpp_config_args,
            work.c_config_args,
            work.cxx_config_args,
        ),
        forall|x: Text| flags.contains(x) ==> #[trigger] args.contains(x),
    ensures
        takes(args, work.cpp_config_args),
        takes(
            args,
            match language {
                NativeSourceLanguage::C => work.c_config_args,
                NativeSourceLanguage::Cpp => work.cxx_config_args,
            },
        ),
        takes(args, held_for_source(env, work.kind.target_triple@, language)),
{
    let triple = work.kind.target_triple@;
    let cpp = work.cpp_config_args;
    let own = match language {
        NativeSourceLanguage::C => work.c_config_args,
        NativeSourceLanguage::Cpp => work.cxx_config_args,
    };
    lemma_compile_options(
        env,
        triple,
        language,
        cpp,
        work.c_config_args,
        work.cxx_config_args,
    );
    lemma_compile_order(env, triple, language);
    assert forall|i: int| 0 <= i < cpp.len() implies args.contains(#[trigger] cpp[i]) by {
        assert((cpp + own)[i] == cpp[i]);
        assert(flags[i] == cpp[i]);
    }
    assert forall|i: int| 0 <= i < own.len() implies args.contains(#[trigger] own[i]) by {
        assert((cpp + own)[cpp.len() + i] == own[i]);
        assert(flags[cpp.len() + i] == own[i]);
    }
    let held = held_for_source(env, triple, language);
    lemma_compile_parts(
        env,
        triple,
        language,
        cpp,
        work.c_config_args,
        work.cxx_config_args,
    );
    assert forall|i: int| 0 <= i < held.len() implies args.contains(#[trigger] held[i]) by {
        assert(flags[cpp.len() + own.len() + i] == held[i]);
    }
}

/// A build that does not fail has native sources alone; it compiles them one after the
/// other once the directories are there, and ends with the step that puts the objects
/// together.
pub proof fn lemma_steps(work: WorkView, env: EnvVars, outputs: BuildScriptOutputs, fs: FsView)
    requires
        succeeds(work.steps(env, outputs, fs)),
    ensures
        primary_output(files_of(work.unit)) is Some,
        forall|i: int|
            0 <= i < work.sources.len() ==> language_of(#[trigger] work.sources[i]) is Some,
        ({
            let steps = work.steps(env, outputs, fs);
            let primary = primary_output(files_of(work.unit))->0;
            let lead = file_dir_steps(files_of(work.unit)) + object_dir_steps(
                work.objects(primary),
            );
            &&& steps.len() == lead.len() + work.sources.len() + 1
            &&& forall|i: int|
                0 <= i < work.sources.len() ==> steps[lead.len() + i] == (
                #[trigger] work.compile_step(env, primary, work.include_dirs(outputs, fs), i))
            &&& steps.last() == work.final_step(env, outputs, primary)
        }),
{
    let steps = work.steps(env, outputs, fs);
    assert(!(steps[steps.len() - 1] is Fail));
    if primary_output(files_of(work.unit)) is Some {
        let primary = primary_output(files_of(work.unit))->0;
        let n = native_lead(work.sources);
        lemma_lead(work.sources);
        assert(n >= work.sources.len());
        let lead = file_dir_steps(files_of(work.unit)) + object_dir_steps(work.objects(primary));
        let dirs = work.include_dirs(outputs, fs);
        let compiled = work.compile_steps(env, primary, dirs, n);
        assert forall|i: int| 0 <= i < work.sources.len() implies steps[lead.len() + i] == (
        #[trigger] work.compile_step(env, primary, dirs, i)) by {
            assert(compiled[i] == work.compile_step(env, primary, dirs, i));
        }
    }
}

proof fn lemma_lead(sources: Seq<Text>)
    ensures
        native_lead(sources) <= sources.len(),
        forall|i: int| 0 <= i < native_lead(sources) ==> language_of(#[trigger] sources[i]) is Some,
    decreases sources.len(),
{
    if sources.len() > 0 && language_of(sources[0]) is Some {
        let rest = sources.skip(1);
        lemma_lead(rest);
        assert forall|i: int| 0 <= i < native_lead(sources) implies language_of(
            #[trigger] sources[i],
        ) is Some by {
            if i > 0 {
                assert(rest[i - 1] == sources[i]);
            }
        }
    }
}

/// A build that does not fail compiles each source, before its last step, and makes the
/// object of it that stands in the same place.
pub proof fn lemma_sources_compiled(
    work: WorkView,
    env: EnvVars,
    outputs: BuildScriptOutputs,
    fs: FsView,
    i: int,
)
    requires
        succeeds(work.steps(env, outputs, fs)),
        0 <= i < work.sources.len(),
    ensures
        primary_output(files_of(work.unit)) matches Some(primary) && exists|k: int|
            0 <= k < work.steps(env, outputs, fs).len() - 1 && (#[trigger] work.steps(
                env,
                outputs,
                fs,
            )[k] matches StepView::Run(cmd) && compiles(
                cmd,
                work,
                env,
                work.include_dirs(outputs, fs),
                work.sources[i],
                work.objects(primary)[i],
            )),
{
    lemma_steps(work, env, outputs, fs);
    let primary = primary_output(files_of(work.unit))->0;
    let dirs = work.include_dirs(outputs, fs);
    let lead = file_dir_steps(files_of(work.unit)) + object_dir_steps(work.objects(primary));
    lemma_compile_step(work, env, primary, dirs, i);
    assert(work.steps(env, outputs, fs)[lead.len() + i] == work.compile_step(
        env,
        primary,
        dirs,
        i,
    ));
}

} // verus!
