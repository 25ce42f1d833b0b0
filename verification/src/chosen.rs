//! Which tools a target gets: those that are set come before those that are found.
use vstd::prelude::*;

use crate::config::{NativeConfig, NativeSettings, ToolSetting};
use crate::env::{cargo_target_var, env_suffix, plain_target_var, EnvVars};
use crate::fs::FsView;
use crate::native::{family_of, NativeCompilerFamily};
use crate::os_text::{plain, OsTextView};
use crate::path::{joined, program_name, PathRule};
use crate::text::{ascii_lowered, holds_text, text_pairs, texts, Text};
use crate::toolchain::{ar_candidates, cc_candidates, cxx_candidates, first_found, first_in_dir};
use crate::toolchain::{first_in_dirs, msvc_needed, toolchain_of};
use crate::toolchain::{FoundTools, MsvcEnvironment, ToolchainView};

verus! {

/// The variable that sets a tool for one target before all else.
pub open spec fn first_var(triple: Text, key: Text) -> Text {
    "CARGO_TARGET_"@ + env_suffix(triple) + "_NATIVE_"@ + key
}

/// The variable that sets a tool for one target where the first one does not.
pub open spec fn second_var(triple: Text, key: Text) -> Text {
    key + "_"@ + env_suffix(triple)
}

/// Nothing in the environment sets the tool.
pub open spec fn unset_by_env(env: EnvVars, triple: Text, key: Text) -> bool {
    &&& env.value_of(first_var(triple, key)) is None
    &&& env.value_of(second_var(triple, key)) is None
    &&& env.value_of(key) is None
}

/// Nothing sets the tool, neither in the environment nor in the configuration.
pub open spec fn unset(
    env: EnvVars,
    triple: Text,
    key: Text,
    target: Option<ToolSetting>,
    build: Option<ToolSetting>,
) -> bool {
    unset_by_env(env, triple, key) && target is None && build is None
}

/// Where something sets the tool, the tool is what is set: by the variables for the
/// target, by the variable for all targets, by the table of the target, or by the table
/// `build`, in this order.
pub open spec fn is_as_set(
    tool: Option<OsTextView>,
    env: EnvVars,
    triple: Text,
    key: Text,
    target: Option<ToolSetting>,
    build: Option<ToolSetting>,
) -> bool {
    let first = env.value_of(first_var(triple, key));
    let second = env.value_of(second_var(triple, key));
    let all = env.value_of(key);
    &&& first is Some ==> tool == first
    &&& first is None && second is Some ==> tool == second
    &&& first is None && second is None && all is Some ==> tool == all
    &&& unset_by_env(env, triple, key) && target is Some ==> tool == Some(
        plain(target->0.program@),
    )
    &&& unset_by_env(env, triple, key) && target is None && build is Some ==> tool == Some(
        plain(build->0.program@),
    )
}

/// The tools of the table `build`, as far as it can be read.
pub open spec fn build_setting(config: NativeConfig, key: Text) -> Option<ToolSetting> {
    match config.build {
        Ok(build) => setting(build, key),
        Err(_) => None,
    }
}

/// The tool that a table sets.
pub open spec fn setting(table: NativeSettings, key: Text) -> Option<ToolSetting> {
    if key == "CC"@ {
        table.native_cc
    } else if key == "CXX"@ {
        table.native_cxx
    } else {
        table.native_ar
    }
}

/// The tool is the first of the names that is found on the search path; none where none
/// of them is found.
pub open spec fn is_first_found(found: FoundTools, names: Seq<Text>, tool: Option<OsTextView>) -> bool {
    ||| tool is None && forall|i: int|
        0 <= i < names.len() ==> found.path_of(#[trigger] names[i]) is None
    ||| exists|j: int| #[trigger] is_found_at(found, names, tool, j)
}

/// The tool is the name in place `j`, and none before it is found.
pub open spec fn is_found_at(
    found: FoundTools,
    names: Seq<Text>,
    tool: Option<OsTextView>,
    j: int,
) -> bool {
    &&& 0 <= j < names.len()
    &&& tool is Some
    &&& found.path_of(names[j]) == tool
    &&& forall|i: int| 0 <= i < j ==> found.path_of(#[trigger] names[i]) is None
}

/// The C and C++ compilers for a target, the preferred ones first: those of the
/// target's own family come before the others.
pub open spec fn preferred_compilers(triple: Text, key: Text) -> Seq<Text> {
    let cl = "cl.exe"@;
    let clang_cl = "clang-cl.exe"@;
    let clang = if key == "CC"@ {
        "clang.exe"@
    } else {
        "clang++.exe"@
    };
    let gcc = if key == "CC"@ {
        "gcc.exe"@
    } else {
        "g++.exe"@
    };
    if holds_text(triple, "windows"@) {
        if holds_text(triple, "windows-msvc"@) {
            seq![cl, clang_cl, clang, gcc]
        } else if holds_text(triple, "windows-gnullvm"@) {
            seq![clang, gcc, clang_cl, cl]
        } else if holds_text(triple, "windows-gnu"@) {
            seq![gcc, clang, cl, clang_cl]
        } else {
            seq![cl, clang_cl, clang, gcc]
        }
    } else if key == "CC"@ {
        seq!["cc"@, "gcc"@, "clang"@]
    } else {
        seq!["c++"@, "g++"@, "clang++"@]
    }
}

/// The archivers for a target, the preferred ones first.
pub open spec fn preferred_archivers(triple: Text, family: NativeCompilerFamily) -> Seq<Text> {
    if family == NativeCompilerFamily::MsvcLike {
        seq!["lib.exe"@, "llvm-lib.exe"@]
    } else if holds_text(triple, "windows-gnullvm"@) {
        seq!["llvm-ar"@, "ar"@]
    } else {
        seq!["ar"@, "llvm-ar"@]
    }
}

proof fn lemma_var_names(triple: Text, key: Text)
    ensures
        cargo_target_var(triple, "NATIVE_"@ + key) == first_var(triple, key),
        plain_target_var(triple, key) == second_var(triple, key),
{
    reveal_strlit("_");
    reveal_strlit("NATIVE_");
    reveal_strlit("_NATIVE_");
    assert("_"@ + "NATIVE_"@ =~= "_NATIVE_"@);
    assert(cargo_target_var(triple, "NATIVE_"@ + key) =~= first_var(triple, key));
}

proof fn lemma_keys_differ()
    ensures
        "CC"@ != "CXX"@,
        "CC"@ != "AR"@,
        "CXX"@ != "AR"@,
        "cc"@ != "cxx"@,
        "cc"@ != "ar"@,
        "cxx"@ != "ar"@,
{
    reveal_strlit("CC");
    reveal_strlit("CXX");
    reveal_strlit("AR");
    reveal_strlit("cc");
    reveal_strlit("cxx");
    reveal_strlit("ar");
    assert("CC"@.len() == 2 && "CXX"@.len() == 3 && "AR"@.len() == 2);
    assert("cc"@.len() == 2 && "cxx"@.len() == 3 && "ar"@.len() == 2);
    assert("CC"@[0] != "AR"@[0]);
    assert("cc"@[0] != "ar"@[0]);
}

proof fn lemma_first_found(found: FoundTools, names: Seq<Text>)
    ensures
        is_first_found(found, names, first_found(found, names)),
    decreases names.len(),
{
    if names.len() > 0 {
        let rest = names.skip(1);
        let tool = first_found(found, names);
        if found.path_of(names[0]) is Some {
            assert(is_found_at(found, names, tool, 0));
        } else {
            lemma_first_found(found, rest);
            if tool is Some {
                let j = choose|j: int| #[trigger] is_found_at(found, rest, tool, j);
                assert forall|i: int| 0 <= i < j + 1 implies found.path_of(#[trigger] names[i]) is None by {
                    if i > 0 {
                        assert(rest[i - 1] == names[i]);
                    }
                }
                assert(rest[j] == names[j + 1]);
                assert(is_found_at(found, names, tool, j + 1));
            } else {
                assert forall|i: int| 0 <= i < names.len() implies found.path_of(
                    #[trigger] names[i],
                ) is None by {
                    if i > 0 {
                        assert(rest[i - 1] == names[i]);
                        assert(found.path_of(rest[i - 1]) is None);
                    }
                }
            }
        }
    }
}

/// Each tool is the one that the environment or the configuration sets, whatever is on
/// the search path.
pub proof fn lemma_set_tools(
    triple: Text,
    env: EnvVars,
    config: NativeConfig,
    found: FoundTools,
    fs: FsView,
    msvc: Option<MsvcEnvironment>,
    rule: PathRule,
    tools: ToolchainView,
)
    requires
        toolchain_of(triple, env, config, found, fs, msvc, rule) == Ok::<ToolchainView, Text>(tools),
    ensures
        config.target matches Ok(table) && {
            &&& is_as_set(
                Some(tools.cc),
                env,
                triple,
                "CC"@,
                table.native_cc,
                build_setting(config, "CC"@),
            )
            &&& is_as_set(
                Some(tools.cxx),
                env,
                triple,
                "CXX"@,
                table.native_cxx,
                build_setting(config, "CXX"@),
            )
            &&& is_as_set(
                tools.ar,
                env,
                triple,
                "AR"@,
                table.native_ar,
                build_setting(config, "AR"@),
            )
        },
{
    lemma_keys_differ();
    lemma_var_names(triple, "CC"@);
    lemma_var_names(triple, "CXX"@);
    lemma_var_names(triple, "AR"@);
}

/// A tool that nothing sets is the preferred one of those on the search path. Without a
/// C++ compiler of its own, C++ is compiled by the C compiler.
pub proof fn lemma_found_tools(
    triple: Text,
    env: EnvVars,
    config: NativeConfig,
    found: FoundTools,
    fs: FsView,
    rule: PathRule,
    tools: ToolchainView,
)
    requires
        toolchain_of(triple, env, config, found, fs, None, rule) == Ok::<ToolchainView, Text>(tools),
    ensures
        tools.env.len() == 0,
        tools.init_script is None,
        config.target matches Ok(table) && {
            &&& unset(env, triple, "CC"@, table.native_cc, build_setting(config, "CC"@))
                ==> is_first_found(found, preferred_compilers(triple, "CC"@), Some(tools.cc))
            &&& unset(env, triple, "CXX"@, table.native_cxx, build_setting(config, "CXX"@)) ==> {
                ||| is_first_found(found, preferred_compilers(triple, "CXX"@), Some(tools.cxx))
                ||| tools.cxx == tools.cc && is_first_found(
                    found,
                    preferred_compilers(triple, "CXX"@),
                    None,
                )
            }
            &&& unset(env, triple, "AR"@, table.native_ar, build_setting(config, "AR"@))
                ==> is_first_found(found, preferred_archivers(triple, tools.family), tools.ar)
        },
{
    lemma_keys_differ();
    lemma_var_names(triple, "CC"@);
    lemma_var_names(triple, "CXX"@);
    lemma_var_names(triple, "AR"@);
    lemma_windows(triple);
    lemma_first_found(found, cc_candidates(triple));
    lemma_first_found(found, cxx_candidates(triple));
    lemma_first_found(found, ar_candidates(triple, tools.family));
    assert(cc_candidates(triple) =~= preferred_compilers(triple, "CC"@));
    assert(cxx_candidates(triple) =~= preferred_compilers(triple, "CXX"@));
    assert(ar_candidates(triple, tools.family) =~= preferred_archivers(triple, tools.family));
    assert(first_in_dirs(fs, Seq::empty(), cc_candidates(triple)) is None);
    assert(first_in_dirs(fs, Seq::empty(), cxx_candidates(triple)) is None);
    assert(first_in_dirs(fs, Seq::empty(), ar_candidates(triple, tools.family)) is None);
}

proof fn lemma_windows(triple: Text)
    ensures
        holds_text(triple, "windows-msvc"@) ==> holds_text(triple, "windows"@),
        holds_text(triple, "windows-gnullvm"@) ==> holds_text(triple, "windows"@),
        holds_text(triple, "windows-gnu"@) ==> holds_text(triple, "windows"@),
{
    reveal_strlit("windows");
    reveal_strlit("windows-msvc");
    reveal_strlit("windows-gnullvm");
    reveal_strlit("windows-gnu");
    lemma_holds_prefix(triple, "windows-msvc"@, "windows"@);
    lemma_holds_prefix(triple, "windows-gnullvm"@, "windows"@);
    lemma_holds_prefix(triple, "windows-gnu"@, "windows"@);
}

proof fn lemma_holds_prefix(hay: Text, long: Text, short: Text)
    requires
        short.len() <= long.len(),
        long.take(short.len() as int) =~= short,
    ensures
        holds_text(hay, long) ==> holds_text(hay, short),
{
    if holds_text(hay, long) {
        let i = choose|i: int| crate::text::occurs_at(hay, long, i);
        assert(hay.subrange(i, i + short.len()) =~= long.take(short.len() as int)) by {
            assert(hay.subrange(i, i + long.len()) == long);
            assert forall|k: int| 0 <= k < short.len() implies hay.subrange(i, i + short.len())[k]
                == long[k] by {
                assert(hay.subrange(i, i + long.len())[k] == hay[i + k]);
            }
        }
        assert(crate::text::occurs_at(hay, short, i));
    }
}

/// Tools are told wherever the table of the target can be read and a C compiler is set
/// or found; a table that cannot be read is the error.
pub proof fn lemma_tools_told(
    triple: Text,
    env: EnvVars,
    config: NativeConfig,
    found: FoundTools,
    fs: FsView,
    msvc: Option<MsvcEnvironment>,
    rule: PathRule,
)
    ensures
        config.target matches Err(e) ==> toolchain_of(triple, env, config, found, fs, msvc, rule)
            == Err::<ToolchainView, Text>(e@),
        config.target matches Ok(table) && (!unset(
            env,
            triple,
            "CC"@,
            table.native_cc,
            build_setting(config, "CC"@),
        ) || !is_first_found(found, preferred_compilers(triple, "CC"@), None)) ==> toolchain_of(
            triple,
            env,
            config,
            found,
            fs,
            msvc,
            rule,
        ) is Ok,
{
    lemma_keys_differ();
    lemma_var_names(triple, "CC"@);
    lemma_windows(triple);
    lemma_first_found(found, cc_candidates(triple));
    assert(cc_candidates(triple) =~= preferred_compilers(triple, "CC"@));
}

/// Where no compiler is set for a target of Microsoft's compiler and none is found, the
/// tools run in the loaded compiler environment, and the files of the first of its
/// directories come before all else.
pub proof fn lemma_loaded_environment(
    triple: Text,
    env: EnvVars,
    config: NativeConfig,
    found: FoundTools,
    fs: FsView,
    msvc: MsvcEnvironment,
    rule: PathRule,
    tools: ToolchainView,
)
    requires
        toolchain_of(triple, env, config, found, fs, Some(msvc), rule) == Ok::<ToolchainView, Text>(
            tools,
        ),
        holds_text(triple, "windows-msvc"@),
        config.target matches Ok(table) && {
            &&& unset(env, triple, "CC"@, table.native_cc, build_setting(config, "CC"@))
            &&& unset(env, triple, "CXX"@, table.native_cxx, build_setting(config, "CXX"@))
        },
        is_first_found(found, preferred_compilers(triple, "CC"@), None),
        is_first_found(found, preferred_compilers(triple, "CXX"@), None),
    ensures
        tools.env == text_pairs(msvc.vars@),
        tools.init_script == Some(msvc.script@),
        msvc.path_dirs@.len() > 0 && fs.has_file(joined(msvc.path_dirs@[0]@, "cl.exe"@)) ==> {
            &&& tools.cc == plain(joined(msvc.path_dirs@[0]@, "cl.exe"@))
            &&& tools.cxx == plain(joined(msvc.path_dirs@[0]@, "cl.exe"@))
        },
{
    lemma_keys_differ();
    lemma_var_names(triple, "CC"@);
    lemma_var_names(triple, "CXX"@);
    lemma_windows(triple);
    lemma_first_found(found, cc_candidates(triple));
    lemma_first_found(found, cxx_candidates(triple));
    assert(cc_candidates(triple) =~= preferred_compilers(triple, "CC"@));
    assert(cxx_candidates(triple) =~= preferred_compilers(triple, "CXX"@));
    assert(first_found(found, cc_candidates(triple)) is None);
    assert(first_found(found, cxx_candidates(triple)) is None);
    let dirs = texts(msvc.path_dirs@);
    if msvc.path_dirs@.len() > 0 && fs.has_file(joined(msvc.path_dirs@[0]@, "cl.exe"@)) {
        assert(dirs[0] == msvc.path_dirs@[0]@);
        assert(cc_candidates(triple)[0] == "cl.exe"@);
        assert(cxx_candidates(triple)[0] == "cl.exe"@);
        assert(first_in_dir(fs, dirs[0], cc_candidates(triple)) == Some(
            joined(dirs[0], "cl.exe"@),
        ));
        assert(first_in_dir(fs, dirs[0], cxx_candidates(triple)) == Some(
            joined(dirs[0], "cl.exe"@),
        ));
    }
}

/// The compiler environment is needed exactly where the target is one of Microsoft's
/// compiler, neither compiler is set for it, be it by a variable for the target or in the
/// configuration, and none of the compilers for it is found.
pub proof fn lemma_environment_needed(
    triple: Text,
    env: EnvVars,
    config: NativeConfig,
    found: FoundTools,
)
    ensures
        match config.target {
            Ok(table) => msvc_needed(triple, env, config, found) == Ok::<bool, Text>(
                {
                    &&& holds_text(triple, "windows-msvc"@)
                    &&& env.value_of(first_var(triple, "CC"@)) is None
                    &&& env.value_of(second_var(triple, "CC"@)) is None
                    &&& env.value_of(first_var(triple, "CXX"@)) is None
                    &&& env.value_of(second_var(triple, "CXX"@)) is None
                    &&& table.native_cc is None
                    &&& table.native_cxx is None
                    &&& build_setting(config, "CC"@) is None
                    &&& build_setting(config, "CXX"@) is None
                    &&& is_first_found(found, preferred_compilers(triple, "CC"@), None)
                    &&& is_first_found(found, preferred_compilers(triple, "CXX"@), None)
                },
            ),
            Err(e) => msvc_needed(triple, env, config, found) == Err::<bool, Text>(e@),
        },
{
    lemma_keys_differ();
    lemma_var_names(triple, "CC"@);
    lemma_var_names(triple, "CXX"@);
    lemma_windows(triple);
    lemma_first_found(found, cc_candidates(triple));
    lemma_first_found(found, cxx_candidates(triple));
    assert(cc_candidates(triple) =~= preferred_compilers(triple, "CC"@));
    assert(cxx_candidates(triple) =~= preferred_compilers(triple, "CXX"@));
    lemma_found_or_not(found, cc_candidates(triple));
    lemma_found_or_not(found, cxx_candidates(triple));
}

proof fn lemma_found_or_not(found: FoundTools, names: Seq<Text>)
    ensures
        is_first_found(found, names, None) <==> first_found(found, names) is None,
    decreases names.len(),
{
    lemma_first_found(found, names);
    if is_first_found(found, names, None) && first_found(found, names) is Some {
        let tool = first_found(found, names);
        let j = choose|j: int| #[trigger] is_found_at(found, names, tool, j);
        assert(found.path_of(names[j]) is Some);
    }
}

/// A compiler takes options as `cl.exe` does exactly where its file name, in lower case,
/// is that of `cl`, `clang-cl` or `llvm-cl`, with `.exe` or without.
pub proof fn lemma_family(cxx: Text, rule: PathRule)
    ensures
        family_of(cxx, rule) == NativeCompilerFamily::MsvcLike <==> exists|name: Text|
            program_name(cxx, rule) == Some(name) && (ascii_lowered(name) == "cl"@
                || #[trigger] ascii_lowered(name) == "cl.exe"@ || ascii_lowered(name)
                == "clang-cl"@ || ascii_lowered(name) == "clang-cl.exe"@ || ascii_lowered(name)
                == "llvm-cl"@ || ascii_lowered(name) == "llvm-cl.exe"@),
{
    reveal_strlit("cl");
    reveal_strlit("cl.exe");
    reveal_strlit("clang-cl");
    reveal_strlit("clang-cl.exe");
    reveal_strlit("llvm-cl");
    reveal_strlit("llvm-cl.exe");
    match program_name(cxx, rule) {
        Some(name) => {
            assert(ascii_lowered(name) == ascii_lowered(name));
        },
        None => {
            assert(ascii_lowered(Seq::empty()) =~= Seq::empty());
        },
    }
}

} // verus!
