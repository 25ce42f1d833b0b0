//! The native tools of a compilation target: which compilers and which archiver
//! are used, and where they are looked for.
use vstd::prelude::*;

use crate::command::{copy_pairs, Command, CommandView};
use crate::config::{build_native_tool_config, build_tool, target_native_tool_config, target_tool};
use crate::config::NativeConfig;
use crate::env::{first_of, target_native_tool_env, tool_env, EnvVars};
use crate::fs::FsView;
use crate::native::{compiler_family, family_of, NativeCompilerFamily};
use crate::order::{keys_view, lemma_keys_push, order_unique_by_keys, pick, places_view};
use crate::order::{sorted_unique_by, Key};
use crate::os_text::{opt_os, opt_plain, os_text_of, plain, OsText, OsTextView};
use crate::path::{join_path, joined, text_key, text_key_of, PathRule};
use crate::text::{contains_text, holds_text, join_list, join_texts, lines, no_texts, opt_text};
use crate::text::{push_pair, res_opt_text, same_text, split_lines, split_once_at, split_once_char};
use crate::text::{starts_with_text, text3, text5, text_pairs, texts, trim_text, trimmed, Text};

verus! {

/// The native tools of a compilation target.
#[derive(Debug)]
pub struct NativeToolchain {
    /// The C compiler.
    pub cc: OsText,
    /// The C++ compiler.
    pub cxx: OsText,
    /// The archiver.
    pub ar: Option<OsText>,
    /// The command lines that the tools take.
    pub family: NativeCompilerFamily,
    /// The variables that are set for the tools.
    pub env: Vec<(String, String)>,
    /// The script that the variables come from.
    pub init_script: Option<OsText>,
}

/// What a toolchain holds.
#[verifier::ext_equal]
pub struct ToolchainView {
    /// The C compiler.
    pub cc: OsTextView,
    /// The C++ compiler.
    pub cxx: OsTextView,
    /// The archiver.
    pub ar: Option<OsTextView>,
    /// The command lines that the tools take.
    pub family: NativeCompilerFamily,
    /// The variables that are set for the tools.
    pub env: Seq<(Text, Text)>,
    /// The script that the variables come from.
    pub init_script: Option<OsTextView>,
}

impl View for NativeToolchain {
    type V = ToolchainView;

    open spec fn view(&self) -> ToolchainView {
        ToolchainView {
            cc: self.cc@,
            cxx: self.cxx@,
            ar: opt_os(self.ar),
            family: self.family,
            env: text_pairs(self.env@),
            init_script: opt_os(self.init_script),
        }
    }
}

/// Tools that were found on the search path of the process, each with its path.
#[derive(Debug)]
pub struct FoundTools {
    /// The name of a tool and its path; where a name occurs more than once, the
    /// first one counts.
    pub tools: Vec<(String, OsText)>,
}

/// The environment that a script of the compiler's maker sets up.
#[derive(Debug)]
pub struct MsvcEnvironment {
    /// The variables.
    pub vars: Vec<(String, String)>,
    /// The directories in the value of the variable `PATH`.
    pub path_dirs: Vec<String>,
    /// The script.
    pub script: OsText,
}

/// The path of a tool in a list.
pub open spec fn find_tool(tools: Seq<(String, OsText)>, tool: Text) -> Option<OsTextView>
    decreases tools.len(),
{
    if tools.len() == 0 {
        None
    } else if tools[0].0@ == tool {
        Some(tools[0].1@)
    } else {
        find_tool(tools.skip(1), tool)
    }
}

impl FoundTools {
    /// The path of a tool.
    pub open spec fn path_of(self, tool: Text) -> Option<OsTextView> {
        find_tool(self.tools@, tool)
    }

    /// The path of a tool.
    pub fn find(&self, tool: &str) -> (r: Option<OsText>)
        ensures
            opt_os(r) == self.path_of(tool@),
    {
        let mut i: usize = 0;
        assert(self.tools@.skip(0) =~= self.tools@);
        while i < self.tools.len()
            invariant
                i <= self.tools@.len(),
                find_tool(self.tools@, tool@) == find_tool(self.tools@.skip(i as int), tool@),
            decreases self.tools@.len() - i,
        {
            if same_text(self.tools[i].0.as_str(), tool) {
                return Some(self.tools[i].1.copy());
            }
            assert(self.tools@.skip(i as int).skip(1) =~= self.tools@.skip(i + 1));
            i = i + 1;
        }
        None
    }
}

/// The path of the first of the candidates that was found.
pub open spec fn first_found(found: FoundTools, candidates: Seq<Text>) -> Option<OsTextView>
    decreases candidates.len(),
{
    if candidates.len() == 0 {
        None
    } else {
        match found.path_of(candidates[0]) {
            Some(path) => Some(path),
            None => first_found(found, candidates.skip(1)),
        }
    }
}

/// The path of the first of the candidates that was found.
pub fn resolve_tool(found: &FoundTools, candidates: &Vec<String>) -> (r: Option<OsText>)
    ensures
        opt_os(r) == first_found(*found, texts(candidates@)),
{
    let ghost all = texts(candidates@);
    let mut i: usize = 0;
    assert(all.skip(0) =~= all);
    while i < candidates.len()
        invariant
            i <= candidates@.len(),
            all == texts(candidates@),
            first_found(*found, all) == first_found(*found, all.skip(i as int)),
        decreases candidates@.len() - i,
    {
        assert(all.skip(i as int)[0] == candidates@[i as int]@);
        match found.find(candidates[i].as_str()) {
            Some(path) => {
                return Some(path);
            },
            None => {},
        }
        assert(all.skip(i as int).skip(1) =~= all.skip(i + 1));
        i = i + 1;
    }
    None
}

/// The first of the candidates that is a file in a directory.
pub open spec fn first_in_dir(fs: FsView, dir: Text, candidates: Seq<Text>) -> Option<Text>
    decreases candidates.len(),
{
    if candidates.len() == 0 {
        None
    } else if fs.has_file(joined(dir, candidates[0])) {
        Some(joined(dir, candidates[0]))
    } else {
        first_in_dir(fs, dir, candidates.skip(1))
    }
}

/// The first of the candidates that is a file in the first directory that has one.
pub open spec fn first_in_dirs(fs: FsView, dirs: Seq<Text>, candidates: Seq<Text>) -> Option<Text>
    decreases dirs.len(),
{
    if dirs.len() == 0 {
        None
    } else {
        first_of(
            first_in_dir(fs, dirs[0], candidates),
            first_in_dirs(fs, dirs.skip(1), candidates),
        )
    }
}

fn find_in_dir(fs: &FsView, dir: &str, candidates: &Vec<String>) -> (r: Option<String>)
    ensures
        opt_text(r) == first_in_dir(*fs, dir@, texts(candidates@)),
{
    let ghost all = texts(candidates@);
    let mut i: usize = 0;
    assert(all.skip(0) =~= all);
    while i < candidates.len()
        invariant
            i <= candidates@.len(),
            all == texts(candidates@),
            first_in_dir(*fs, dir@, all) == first_in_dir(*fs, dir@, all.skip(i as int)),
        decreases candidates@.len() - i,
    {
        assert(all.skip(i as int)[0] == candidates@[i as int]@);
        let candidate = join_path(dir, candidates[i].as_str());
        if fs.is_file(candidate.as_str()) {
            return Some(candidate);
        }
        assert(all.skip(i as int).skip(1) =~= all.skip(i + 1));
        i = i + 1;
    }
    None
}

fn find_in_dirs(fs: &FsView, dirs: &Vec<String>, candidates: &Vec<String>) -> (r: Option<String>)
    ensures
        opt_text(r) == first_in_dirs(*fs, texts(dirs@), texts(candidates@)),
{
    let ghost all = texts(dirs@);
    let ghost names = texts(candidates@);
    let mut i: usize = 0;
    assert(all.skip(0) =~= all);
    while i < dirs.len()
        invariant
            i <= dirs@.len(),
            all == texts(dirs@),
            names == texts(candidates@),
            first_in_dirs(*fs, all, names) == first_in_dirs(*fs, all.skip(i as int), names),
        decreases dirs@.len() - i,
    {
        assert(all.skip(i as int)[0] == dirs@[i as int]@);
        match find_in_dir(fs, dirs[i].as_str(), candidates) {
            Some(path) => {
                return Some(path);
            },
            None => {},
        }
        assert(all.skip(i as int).skip(1) =~= all.skip(i + 1));
        i = i + 1;
    }
    None
}

/// Where a tool is: in the directories of a compiler environment, else where it
/// was found on the search path of the process.
pub open spec fn tool_place(
    fs: FsView,
    found: FoundTools,
    dirs: Seq<Text>,
    candidates: Seq<Text>,
) -> Option<OsTextView> {
    first_of(opt_plain(first_in_dirs(fs, dirs, candidates)), first_found(found, candidates))
}

/// Where a tool is.
pub fn resolve_tool_with_env(
    fs: &FsView,
    found: &FoundTools,
    dirs: &Vec<String>,
    candidates: &Vec<String>,
) -> (r: Option<OsText>)
    ensures
        opt_os(r) == tool_place(*fs, *found, texts(dirs@), texts(candidates@)),
{
    match find_in_dirs(fs, dirs, candidates) {
        Some(path) => Some(OsText { text: path, bytes: None }),
        None => resolve_tool(found, candidates),
    }
}

/// The C compilers that are tried for a target, in their order.
pub open spec fn cc_candidates(triple: Text) -> Seq<Text> {
    if holds_text(triple, "windows-msvc"@) {
        seq!["cl.exe"@, "clang-cl.exe"@, "clang.exe"@, "gcc.exe"@]
    } else if holds_text(triple, "windows-gnullvm"@) {
        seq!["clang.exe"@, "gcc.exe"@, "clang-cl.exe"@, "cl.exe"@]
    } else if holds_text(triple, "windows-gnu"@) {
        seq!["gcc.exe"@, "clang.exe"@, "cl.exe"@, "clang-cl.exe"@]
    } else if holds_text(triple, "windows"@) {
        seq!["cl.exe"@, "clang-cl.exe"@, "clang.exe"@, "gcc.exe"@]
    } else {
        seq!["cc"@, "gcc"@, "clang"@]
    }
}

/// The C++ compilers that are tried for a target, in their order.
pub open spec fn cxx_candidates(triple: Text) -> Seq<Text> {
    if holds_text(triple, "windows-msvc"@) {
        seq!["cl.exe"@, "clang-cl.exe"@, "clang++.exe"@, "g++.exe"@]
    } else if holds_text(triple, "windows-gnullvm"@) {
        seq!["clang++.exe"@, "g++.exe"@, "clang-cl.exe"@, "cl.exe"@]
    } else if holds_text(triple, "windows-gnu"@) {
        seq!["g++.exe"@, "clang++.exe"@, "cl.exe"@, "clang-cl.exe"@]
    } else if holds_text(triple, "windows"@) {
        seq!["cl.exe"@, "clang-cl.exe"@, "clang++.exe"@, "g++.exe"@]
    } else {
        seq!["c++"@, "g++"@, "clang++"@]
    }
}

/// The archivers that are tried for a target and a family, in their order.
pub open spec fn ar_candidates(triple: Text, family: NativeCompilerFamily) -> Seq<Text> {
    match family {
        NativeCompilerFamily::MsvcLike => seq!["lib.exe"@, "llvm-lib.exe"@],
        NativeCompilerFamily::GnuLike => if holds_text(triple, "windows-gnullvm"@) {
            seq!["llvm-ar"@, "ar"@]
        } else {
            seq!["ar"@, "llvm-ar"@]
        },
    }
}

fn list4(a: &str, b: &str, c: &str, d: &str) -> (r: Vec<String>)
    ensures
        texts(r@) == seq![a@, b@, c@, d@],
{
    let r: Vec<String> = vec![a.to_owned(), b.to_owned(), c.to_owned(), d.to_owned()];
    assert(texts(r@) =~= seq![a@, b@, c@, d@]);
    r
}

fn list3(a: &str, b: &str, c: &str) -> (r: Vec<String>)
    ensures
        texts(r@) == seq![a@, b@, c@],
{
    let r: Vec<String> = vec![a.to_owned(), b.to_owned(), c.to_owned()];
    assert(texts(r@) =~= seq![a@, b@, c@]);
    r
}

fn list2(a: &str, b: &str) -> (r: Vec<String>)
    ensures
        texts(r@) == seq![a@, b@],
{
    let r: Vec<String> = vec![a.to_owned(), b.to_owned()];
    assert(texts(r@) =~= seq![a@, b@]);
    r
}

/// The C compilers that are tried for a target, in their order.
pub fn preferred_cc_candidates(triple: &str) -> (r: Vec<String>)
    ensures
        texts(r@) == cc_candidates(triple@),
{
    if contains_text(triple, "windows-msvc") {
        list4("cl.exe", "clang-cl.exe", "clang.exe", "gcc.exe")
    } else if contains_text(triple, "windows-gnullvm") {
        list4("clang.exe", "gcc.exe", "clang-cl.exe", "cl.exe")
    } else if contains_text(triple, "windows-gnu") {
        list4("gcc.exe", "clang.exe", "cl.exe", "clang-cl.exe")
    } else if contains_text(triple, "windows") {
        list4("cl.exe", "clang-cl.exe", "clang.exe", "gcc.exe")
    } else {
        list3("cc", "gcc", "clang")
    }
}

/// The C++ compilers that are tried for a target, in their order.
pub fn preferred_cxx_candidates(triple: &str) -> (r: Vec<String>)
    ensures
        texts(r@) == cxx_candidates(triple@),
{
    if contains_text(triple, "windows-msvc") {
        list4("cl.exe", "clang-cl.exe", "clang++.exe", "g++.exe")
    } else if contains_text(triple, "windows-gnullvm") {
        list4("clang++.exe", "g++.exe", "clang-cl.exe", "cl.exe")
    } else if contains_text(triple, "windows-gnu") {
        list4("g++.exe", "clang++.exe", "cl.exe", "clang-cl.exe")
    } else if contains_text(triple, "windows") {
        list4("cl.exe", "clang-cl.exe", "clang++.exe", "g++.exe")
    } else {
        list3("c++", "g++", "clang++")
    }
}

/// The archivers that are tried for a target and a family, in their order.
pub fn preferred_ar_candidates(triple: &str, family: NativeCompilerFamily) -> (r: Vec<String>)
    ensures
        texts(r@) == ar_candidates(triple@, family),
{
    match family {
        NativeCompilerFamily::MsvcLike => list2("lib.exe", "llvm-lib.exe"),
        NativeCompilerFamily::GnuLike => if contains_text(triple, "windows-gnullvm") {
            list2("llvm-ar", "ar")
        } else {
            list2("ar", "llvm-ar")
        },
    }
}

/// The tool that the configuration sets: for the compilation target, else for all.
pub open spec fn tool_setting(config: NativeConfig, key: Text) -> Result<Option<Text>, Text> {
    match target_tool(config, key) {
        Ok(tool) => Ok(first_of(tool, build_tool(config, key))),
        Err(e) => Err(e),
    }
}

fn tool_setting_of(config: &NativeConfig, key: &str) -> (r: Result<Option<String>, String>)
    ensures
        res_opt_text(r) == tool_setting(*config, key@),
{
    match target_native_tool_config(config, key) {
        Ok(Some(tool)) => Ok(Some(tool)),
        Ok(None) => Ok(build_native_tool_config(config, key)),
        Err(e) => Err(e),
    }
}

/// No compiler is set by the environment of the target or by the configuration,
/// and none is found on the search path, for a target that uses Microsoft's
/// compiler.
pub open spec fn lacks_compilers(
    triple: Text,
    env: EnvVars,
    cc_setting: Option<Text>,
    cxx_setting: Option<Text>,
    found: FoundTools,
) -> bool {
    &&& tool_env(env, triple, "CC"@) is None
    &&& tool_env(env, triple, "CXX"@) is None
    &&& cc_setting is None
    &&& cxx_setting is None
    &&& holds_text(triple, "windows-msvc"@)
    &&& first_found(found, cc_candidates(triple)) is None
    &&& first_found(found, cxx_candidates(triple)) is None
}

/// Whether the compiler environment of Microsoft's compiler has to be loaded before
/// the tools of a target can be told.
pub open spec fn msvc_needed(
    triple: Text,
    env: EnvVars,
    config: NativeConfig,
    found: FoundTools,
) -> Result<bool, Text> {
    match (tool_setting(config, "cc"@), tool_setting(config, "cxx"@)) {
        (Ok(cc), Ok(cxx)) => Ok(lacks_compilers(triple, env, cc, cxx, found)),
        (Err(e), _) => Err(e),
        (_, Err(e)) => Err(e),
    }
}

fn compilers_are_lacking(
    triple: &str,
    env: &EnvVars,
    cc_setting: &Option<String>,
    cxx_setting: &Option<String>,
    found: &FoundTools,
) -> (r: bool)
    ensures
        r == lacks_compilers(triple@, *env, opt_text(*cc_setting), opt_text(*cxx_setting), *found),
{
    target_native_tool_env(env, triple, "CC").is_none() && target_native_tool_env(
        env,
        triple,
        "CXX",
    ).is_none() && cc_setting.is_none() && cxx_setting.is_none() && contains_text(
        triple,
        "windows-msvc",
    ) && resolve_tool(found, &preferred_cc_candidates(triple)).is_none() && resolve_tool(
        found,
        &preferred_cxx_candidates(triple),
    ).is_none()
}

/// Whether the compiler environment of Microsoft's compiler has to be loaded before
/// the tools of a target can be told.
pub fn needs_msvc_environment(
    triple: &str,
    env: &EnvVars,
    config: &NativeConfig,
    found: &FoundTools,
) -> (r: Result<bool, String>)
    ensures
        match r {
            Ok(needed) => msvc_needed(triple@, *env, *config, *found) == Ok::<bool, Text>(needed),
            Err(e) => msvc_needed(triple@, *env, *config, *found) == Err::<bool, Text>(e@),
        },
{
    match tool_setting_of(config, "cc") {
        Ok(cc) => match tool_setting_of(config, "cxx") {
            Ok(cxx) => Ok(compilers_are_lacking(triple, env, &cc, &cxx, found)),
            Err(e) => Err(e),
        },
        Err(e) => Err(e),
    }
}

/// Where no C compiler is found.
pub open spec fn no_compiler_message(triple: Text) -> Text {
    "failed to find a C compiler for target `"@ + triple
        + "`; set CC, `build.native-cc`, `target."@ + triple
        + ".native-cc`, or install one of: "@ + join_texts(cc_candidates(triple), ", "@)
}

/// The tool that is set: by the environment for the target, by the environment for
/// all targets, or by the configuration.
pub open spec fn set_tool(
    triple: Text,
    env: EnvVars,
    var: Text,
    setting: Option<Text>,
) -> Option<OsTextView> {
    first_of(tool_env(env, triple, var), first_of(env.value_of(var), opt_plain(setting)))
}

fn find_set_tool(triple: &str, env: &EnvVars, var: &str, setting: Option<String>) -> (r: Option<
    OsText,
>)
    ensures
        opt_os(r) == set_tool(triple@, *env, var@, opt_text(setting)),
{
    match target_native_tool_env(env, triple, var) {
        Some(tool) => Some(tool),
        None => match env.get(var) {
            Some(tool) => Some(tool),
            None => os_text_of(setting),
        },
    }
}

/// The tools of a target, once it is told what the configuration sets and which
/// compiler environment is used.
pub open spec fn chosen_tools(
    triple: Text,
    env: EnvVars,
    cc_setting: Option<Text>,
    cxx_setting: Option<Text>,
    ar_setting: Option<Text>,
    found: FoundTools,
    fs: FsView,
    vars: Seq<(Text, Text)>,
    dirs: Seq<Text>,
    script: Option<OsTextView>,
    rule: PathRule,
) -> Result<ToolchainView, Text> {
    match first_of(
        set_tool(triple, env, "CC"@, cc_setting),
        tool_place(fs, found, dirs, cc_candidates(triple)),
    ) {
        None => Err(no_compiler_message(triple)),
        Some(cc) => {
            let cxx = match first_of(
                set_tool(triple, env, "CXX"@, cxx_setting),
                tool_place(fs, found, dirs, cxx_candidates(triple)),
            ) {
                Some(cxx) => cxx,
                None => cc,
            };
            let family = family_of(cxx.text, rule);
            Ok(
                ToolchainView {
                    cc,
                    cxx,
                    ar: first_of(
                        set_tool(triple, env, "AR"@, ar_setting),
                        tool_place(fs, found, dirs, ar_candidates(triple, family)),
                    ),
                    family,
                    env: vars,
                    init_script: script,
                },
            )
        },
    }
}

/// The tools of a target. The compiler environment is used only where it is
/// needed; without one, the tools on the search path are all there are.
pub open spec fn toolchain_of(
    triple: Text,
    env: EnvVars,
    config: NativeConfig,
    found: FoundTools,
    fs: FsView,
    msvc: Option<MsvcEnvironment>,
    rule: PathRule,
) -> Result<ToolchainView, Text> {
    match (tool_setting(config, "cc"@), tool_setting(config, "cxx"@), tool_setting(config, "ar"@)) {
        (Ok(cc), Ok(cxx), Ok(ar)) => match msvc {
            Some(msvc) => if lacks_compilers(triple, env, cc, cxx, found) {
                chosen_tools(
                    triple,
                    env,
                    cc,
                    cxx,
                    ar,
                    found,
                    fs,
                    text_pairs(msvc.vars@),
                    texts(msvc.path_dirs@),
                    Some(msvc.script@),
                    rule,
                )
            } else {
                chosen_tools(
                    triple,
                    env,
                    cc,
                    cxx,
                    ar,
                    found,
                    fs,
                    Seq::empty(),
                    Seq::empty(),
                    None,
                    rule,
                )
            },
            None => chosen_tools(
                triple,
                env,
                cc,
                cxx,
                ar,
                found,
                fs,
                Seq::empty(),
                Seq::empty(),
                None,
                rule,
            ),
        },
        (Err(e), _, _) => Err(e),
        (_, Err(e), _) => Err(e),
        (_, _, Err(e)) => Err(e),
    }
}

/// What a result that is a toolchain or a message holds.
pub open spec fn toolchain_result(r: Result<NativeToolchain, String>) -> Result<
    ToolchainView,
    Text,
> {
    match r {
        Ok(toolchain) => Ok(toolchain@),
        Err(e) => Err(e@),
    }
}

fn choose_tools(
    triple: &str,
    env: &EnvVars,
    cc_setting: Option<String>,
    cxx_setting: Option<String>,
    ar_setting: Option<String>,
    found: &FoundTools,
    fs: &FsView,
    vars: Vec<(String, String)>,
    dirs: &Vec<String>,
    script: Option<OsText>,
    rule: PathRule,
) -> (r: Result<NativeToolchain, String>)
    ensures
        toolchain_result(r) == chosen_tools(
            triple@,
            *env,
            opt_text(cc_setting),
            opt_text(cxx_setting),
            opt_text(ar_setting),
            *found,
            *fs,
            text_pairs(vars@),
            texts(dirs@),
            opt_os(script),
            rule,
        ),
{
    let cc = match find_set_tool(triple, env, "CC", cc_setting) {
        Some(cc) => cc,
        None => match resolve_tool_with_env(fs, found, dirs, &preferred_cc_candidates(triple)) {
            Some(cc) => cc,
            None => {
                let mut message = text5(
                    "failed to find a C compiler for target `",
                    triple,
                    "`; set CC, `build.native-cc`, `target.",
                    triple,
                    ".native-cc`, or install one of: ",
                );
                let names = join_list(&preferred_cc_candidates(triple), ", ");
                message.append(names.as_str());
                return Err(message);
            },
        },
    };
    let cxx = match find_set_tool(triple, env, "CXX", cxx_setting) {
        Some(cxx) => cxx,
        None => match resolve_tool_with_env(fs, found, dirs, &preferred_cxx_candidates(triple)) {
            Some(cxx) => cxx,
            None => cc.copy(),
        },
    };
    let family = compiler_family(cxx.as_str(), rule);
    let ar = match find_set_tool(triple, env, "AR", ar_setting) {
        Some(ar) => Some(ar),
        None => resolve_tool_with_env(fs, found, dirs, &preferred_ar_candidates(triple, family)),
    };
    Ok(NativeToolchain { cc, cxx, ar, family, env: vars, init_script: script })
}

/// The tools of a target.
pub fn detect_toolchain(
    triple: &str,
    env: &EnvVars,
    config: &NativeConfig,
    found: &FoundTools,
    fs: &FsView,
    msvc: &Option<MsvcEnvironment>,
    rule: PathRule,
) -> (r: Result<NativeToolchain, String>)
    ensures
        toolchain_result(r) == toolchain_of(triple@, *env, *config, *found, *fs, *msvc, rule),
{
    let cc = match tool_setting_of(config, "cc") {
        Ok(cc) => cc,
        Err(e) => {
            return Err(e);
        },
    };
    let cxx = match tool_setting_of(config, "cxx") {
        Ok(cxx) => cxx,
        Err(e) => {
            return Err(e);
        },
    };
    let ar = match tool_setting_of(config, "ar") {
        Ok(ar) => ar,
        Err(e) => {
            return Err(e);
        },
    };
    let none: Vec<(String, String)> = Vec::new();
    assert(text_pairs(none@) =~= Seq::empty());
    match msvc {
        Some(msvc) => {
            if compilers_are_lacking(triple, env, &cc, &cxx, found) {
                let vars = copy_pairs(&msvc.vars);
                choose_tools(
                    triple,
                    env,
                    cc,
                    cxx,
                    ar,
                    found,
                    fs,
                    vars,
                    &msvc.path_dirs,
                    Some(msvc.script.copy()),
                    rule,
                )
            } else {
                choose_tools(triple, env, cc, cxx, ar, found, fs, none, &no_texts(), None, rule)
            }
        },
        None => choose_tools(triple, env, cc, cxx, ar, found, fs, none, &no_texts(), None, rule),
    }
}

/// The architecture that `vcvarsall.bat` is asked for.
pub open spec fn msvc_arch(target_triple: Text, host_triple: Text) -> Text {
    let host_is_x64 = "x86_64"@.is_prefix_of(host_triple);
    if "x86_64"@.is_prefix_of(target_triple) {
        "x64"@
    } else if "i686"@.is_prefix_of(target_triple) || "i586"@.is_prefix_of(target_triple) {
        if host_is_x64 {
            "amd64_x86"@
        } else {
            "x86"@
        }
    } else if "aarch64"@.is_prefix_of(target_triple) {
        if host_is_x64 {
            "amd64_arm64"@
        } else {
            "arm64"@
        }
    } else {
        "x64"@
    }
}

/// The architecture that `vcvarsall.bat` is asked for.
pub fn vcvarsall_arch(target_triple: &str, host_triple: &str) -> (r: &'static str)
    ensures
        r@ == msvc_arch(target_triple@, host_triple@),
{
    let host_is_x64 = starts_with_text(host_triple, "x86_64");
    if starts_with_text(target_triple, "x86_64") {
        "x64"
    } else if starts_with_text(target_triple, "i686") || starts_with_text(target_triple, "i586") {
        if host_is_x64 {
            "amd64_x86"
        } else {
            "x86"
        }
    } else if starts_with_text(target_triple, "aarch64") {
        if host_is_x64 {
            "amd64_arm64"
        } else {
            "arm64"
        }
    } else {
        "x64"
    }
}

/// Where `vswhere.exe` stands below the directory of the installed programs.
pub open spec fn vswhere_below(program_files: Text) -> Text {
    joined(
        joined(joined(program_files, "Microsoft Visual Studio"@), "Installer"@),
        "vswhere.exe"@,
    )
}

/// The tool that tells where compilers of Microsoft's are installed: on the search
/// path, else below the directory of the installed programs.
pub open spec fn vswhere_place(env: EnvVars, found: FoundTools, fs: FsView) -> Option<OsTextView> {
    match found.path_of("vswhere.exe"@) {
        Some(path) => Some(path),
        None => match first_of(
            env.text_of("ProgramFiles(x86)"@),
            env.text_of("ProgramFiles"@),
        ) {
            Some(dir) => if fs.has_file(vswhere_below(dir)) {
                Some(plain(vswhere_below(dir)))
            } else {
                None
            },
            None => None,
        },
    }
}

/// Where `vswhere.exe` would stand below the directory of the installed programs.
pub fn vswhere_candidate(env: &EnvVars) -> (r: Option<String>)
    ensures
        opt_text(r) == (match first_of(
            env.text_of("ProgramFiles(x86)"@),
            env.text_of("ProgramFiles"@),
        ) {
            Some(dir) => Some(vswhere_below(dir)),
            None => None,
        }),
{
    let dir = match env.get_text("ProgramFiles(x86)") {
        Some(dir) => Some(dir),
        None => env.get_text("ProgramFiles"),
    };
    match dir {
        Some(dir) => {
            let p = join_path(dir.as_str(), "Microsoft Visual Studio");
            let p = join_path(p.as_str(), "Installer");
            Some(join_path(p.as_str(), "vswhere.exe"))
        },
        None => None,
    }
}

/// The tool that tells where compilers of Microsoft's are installed.
pub fn find_vswhere(env: &EnvVars, found: &FoundTools, fs: &FsView) -> (r: Option<OsText>)
    ensures
        opt_os(r) == vswhere_place(*env, *found, *fs),
{
    match found.find("vswhere.exe") {
        Some(path) => Some(path),
        None => match vswhere_candidate(env) {
            Some(path) => if fs.is_file(path.as_str()) {
                Some(OsText { text: path, bytes: None })
            } else {
                None
            },
            None => None,
        },
    }
}

/// How `vcvarsall.bat` is found.
#[derive(Debug)]
pub enum VcvarsallSearch {
    /// It is this script.
    Script(OsText),
    /// The output of this command tells.
    Query(Command),
    /// It cannot be found.
    Nowhere,
}

/// What a search holds.
pub enum VcvarsallSearchView {
    /// It is this script.
    Script(OsTextView),
    /// The output of this command tells.
    Query(CommandView),
    /// It cannot be found.
    Nowhere,
}

impl View for VcvarsallSearch {
    type V = VcvarsallSearchView;

    open spec fn view(&self) -> VcvarsallSearchView {
        match *self {
            VcvarsallSearch::Script(script) => VcvarsallSearchView::Script(script@),
            VcvarsallSearch::Query(command) => VcvarsallSearchView::Query(command@),
            VcvarsallSearch::Nowhere => VcvarsallSearchView::Nowhere,
        }
    }
}

/// How `vcvarsall.bat` is found: the environment sets it, else `vswhere.exe` is
/// asked.
pub open spec fn vcvarsall_search(
    env: EnvVars,
    found: FoundTools,
    fs: FsView,
) -> VcvarsallSearchView {
    match env.value_of("CARGO_NATIVE_MSVC_VCVARSALL"@) {
        Some(script) => VcvarsallSearchView::Script(script),
        None => match vswhere_place(env, found, fs) {
            Some(vswhere) => VcvarsallSearchView::Query(
                CommandView {
                    program: vswhere,
                    args: seq![
                        "-latest"@,
                        "-products"@,
                        "*"@,
                        "-requires"@,
                        "Microsoft.VisualStudio.Component.VC.Tools.x86.x64"@,
                        "-find"@,
                        "VC\\Auxiliary\\Build\\vcvarsall.bat"@,
                    ],
                    env: Seq::empty(),
                },
            ),
            None => VcvarsallSearchView::Nowhere,
        },
    }
}

/// How `vcvarsall.bat` is found.
pub fn find_vcvarsall(env: &EnvVars, found: &FoundTools, fs: &FsView) -> (r: VcvarsallSearch)
    ensures
        r@ == vcvarsall_search(*env, *found, *fs),
{
    match env.get("CARGO_NATIVE_MSVC_VCVARSALL") {
        Some(script) => VcvarsallSearch::Script(script),
        None => match find_vswhere(env, found, fs) {
            Some(vswhere) => {
                let none: Vec<(String, String)> = Vec::new();
                let mut query = Command::new(&vswhere, &none);
                query.arg("-latest");
                query.arg("-products");
                query.arg("*");
                query.arg("-requires");
                query.arg("Microsoft.VisualStudio.Component.VC.Tools.x86.x64");
                query.arg("-find");
                query.arg("VC\\Auxiliary\\Build\\vcvarsall.bat");
                assert(query@.env =~= Seq::empty());
                assert(vcvarsall_search(*env, *found, *fs) matches VcvarsallSearchView::Query(q)
                    && query@ =~= q);
                VcvarsallSearch::Query(query)
            },
            None => VcvarsallSearch::Nowhere,
        },
    }
}

/// The first line that is not blank, without the white space around it.
pub open spec fn first_filled_line(list: Seq<Text>) -> Option<Text>
    decreases list.len(),
{
    if list.len() == 0 {
        None
    } else if trimmed(list[0]).len() > 0 {
        Some(trimmed(list[0]))
    } else {
        first_filled_line(list.skip(1))
    }
}

/// The script that the output of `vswhere.exe` names.
pub fn vcvarsall_from_output(stdout: &str) -> (r: Option<String>)
    ensures
        opt_text(r) == first_filled_line(lines(stdout@)),
{
    let list = split_lines(stdout);
    let ghost all = texts(list@);
    let mut i: usize = 0;
    assert(all.skip(0) =~= all);
    while i < list.len()
        invariant
            i <= list@.len(),
            all == texts(list@),
            all == lines(stdout@),
            first_filled_line(all) == first_filled_line(all.skip(i as int)),
        decreases list@.len() - i,
    {
        assert(all.skip(i as int)[0] == list@[i as int]@);
        let line = trim_text(list[i].as_str());
        if !line.as_str().is_empty() {
            return Some(line);
        }
        assert(all.skip(i as int).skip(1) =~= all.skip(i + 1));
        i = i + 1;
    }
    None
}

/// The command that runs `vcvarsall.bat` and then lists the environment.
pub open spec fn msvc_env_command(
    env: EnvVars,
    script: Text,
    target_triple: Text,
    host_triple: Text,
) -> CommandView {
    CommandView {
        program: match env.value_of("ComSpec"@) {
            Some(shell) => shell,
            None => plain("cmd.exe"@),
        },
        args: seq![
            "/d"@,
            "/c"@,
            "call \""@ + script + "\" "@ + msvc_arch(target_triple, host_triple)
                + " >nul && set"@,
        ],
        env: Seq::empty(),
    }
}

/// The command that runs `vcvarsall.bat` and then lists the environment.
pub fn msvc_environment_command(
    env: &EnvVars,
    script: &str,
    target_triple: &str,
    host_triple: &str,
) -> (r: Command)
    ensures
        r@ == msvc_env_command(*env, script@, target_triple@, host_triple@),
{
    let shell = match env.get("ComSpec") {
        Some(shell) => shell,
        None => OsText::new("cmd.exe"),
    };
    let none: Vec<(String, String)> = Vec::new();
    let mut cmd = Command::new(&shell, &none);
    cmd.arg("/d");
    cmd.arg("/c");
    let arch = vcvarsall_arch(target_triple, host_triple);
    let line = text5("call \"", script, "\" ", arch, " >nul && set");
    cmd.arg(line.as_str());
    assert(cmd@.env =~= Seq::empty());
    assert(cmd@ =~= msvc_env_command(*env, script@, target_triple@, host_triple@));
    cmd
}

/// What is reported where the script that sets up the environment failed.
pub fn msvc_environment_failure(script: &str) -> (r: String)
    ensures
        r@ == "failed to initialize MSVC environment with `"@ + script@ + "`"@,
{
    text3("failed to initialize MSVC environment with `", script, "`")
}

/// The setting of a variable in a line: a name that is not empty, `=`, and the
/// value.
pub open spec fn setting_in(line: Text) -> Option<(Text, Text)> {
    match split_once_at(line, '=') {
        Some((key, value)) => if key.len() > 0 {
            Some((key, value))
        } else {
            None
        },
        None => None,
    }
}

/// The settings in lines, the last one first.
pub open spec fn settings_back(list: Seq<Text>) -> Seq<(Text, Text)>
    decreases list.len(),
{
    if list.len() == 0 {
        Seq::empty()
    } else {
        let rest = settings_back(list.skip(1));
        match setting_in(list[0]) {
            Some(setting) => rest.push(setting),
            None => rest,
        }
    }
}

/// What settings are ordered by: the name of the variable.
pub open spec fn setting_keys(list: Seq<(Text, Text)>) -> Seq<Key> {
    list.map_values(|s: (Text, Text)| text_key(s.0))
}

/// The variables that a listing of the environment sets, by name. Of a variable
/// that is set more than once the last setting counts.
pub open spec fn listed_vars(stdout: Text) -> Seq<(Text, Text)> {
    let settings = settings_back(lines(stdout));
    sorted_unique_by(settings, setting_keys(settings))
}

/// The variables that a listing of the environment sets.
pub fn msvc_environment_vars(stdout: &str) -> (r: Vec<(String, String)>)
    ensures
        text_pairs(r@) == listed_vars(stdout@),
{
    let list = split_lines(stdout);
    let ghost all = texts(list@);
    let mut settings: Vec<(String, String)> = Vec::new();
    let mut keys: Vec<Vec<Vec<u32>>> = Vec::new();
    let mut i: usize = list.len();
    assert(all.skip(i as int) =~= Seq::empty());
    assert(text_pairs(settings@) =~= Seq::empty());
    assert(keys_view(keys@) =~= setting_keys(text_pairs(settings@)));
    while i > 0
        invariant
            i <= list@.len(),
            all == texts(list@),
            text_pairs(settings@) == settings_back(all.skip(i as int)),
            keys_view(keys@) == setting_keys(text_pairs(settings@)),
        decreases i,
    {
        i = i - 1;
        assert(all.skip(i as int).skip(1) =~= all.skip(i + 1));
        assert(all.skip(i as int)[0] == list@[i as int]@);
        let ghost before = text_pairs(settings@);
        match split_once_char(list[i].as_str(), '=') {
            Some((key, value)) => {
                if !key.as_str().is_empty() {
                    let k = text_key_of(key.as_str());
                    proof {
                        lemma_keys_push(keys@, k);
                    }
                    keys.push(k);
                    let ghost pair = (key@, value@);
                    settings.push((key, value));
                    proof {
                        assert(text_pairs(settings@) =~= before.push(pair));
                        assert(setting_keys(before.push(pair)) =~= setting_keys(before).push(
                            text_key(pair.0),
                        ));
                    }
                }
            },
            None => {},
        }
    }
    assert(all.skip(0) =~= all);
    assert(keys@.len() == keys_view(keys@).len());
    assert(settings@.len() == text_pairs(settings@).len());
    let places = order_unique_by_keys(&keys);
    let ghost want = pick(text_pairs(settings@), places_view(places@));
    let mut r: Vec<(String, String)> = Vec::new();
    let mut j: usize = 0;
    while j < places.len()
        invariant
            j <= places@.len(),
            forall|a: int| 0 <= a < places@.len() ==> #[trigger] places@[a] < settings@.len(),
            want == pick(text_pairs(settings@), places_view(places@)),
            text_pairs(r@) == want.take(j as int),
        decreases places@.len() - j,
    {
        let at = places[j];
        push_pair(&mut r, settings[at].0.clone(), settings[at].1.clone());
        assert(want[j as int] == (settings@[at as int].0@, settings@[at as int].1@));
        assert(want.take(j + 1) =~= want.take(j as int).push(want[j as int]));
        j = j + 1;
    }
    assert(want.take(j as int) =~= want);
    r
}

/// The value of a variable in a list of settings.
pub open spec fn setting_of(vars: Seq<(Text, Text)>, name: Text) -> Option<Text>
    decreases vars.len(),
{
    if vars.len() == 0 {
        None
    } else if vars[0].0 == name {
        Some(vars[0].1)
    } else {
        setting_of(vars.skip(1), name)
    }
}

/// The search path of a compiler environment: the value of its variable `PATH`, whose
/// directories tools are looked for in.
pub fn msvc_search_path(vars: &Vec<(String, String)>) -> (r: Option<String>)
    ensures
        opt_text(r) == setting_of(text_pairs(vars@), "PATH"@),
{
    let ghost all = text_pairs(vars@);
    let mut i: usize = 0;
    assert(all.skip(0) =~= all);
    while i < vars.len()
        invariant
            i <= vars@.len(),
            all == text_pairs(vars@),
            setting_of(all, "PATH"@) == setting_of(all.skip(i as int), "PATH"@),
        decreases vars@.len() - i,
    {
        assert(all.skip(i as int)[0] == (vars@[i as int].0@, vars@[i as int].1@));
        if same_text(vars[i].0.as_str(), "PATH") {
            return Some(vars[i].1.clone());
        }
        assert(all.skip(i as int).skip(1) =~= all.skip(i + 1));
        i = i + 1;
    }
    None
}

/// A compiler environment that is not needed changes nothing.
pub proof fn lemma_msvc_only_where_needed(
    triple: Text,
    env: EnvVars,
    config: NativeConfig,
    found: FoundTools,
    fs: FsView,
    msvc: Option<MsvcEnvironment>,
    rule: PathRule,
)
    requires
        msvc_needed(triple, env, config, found) == Ok::<bool, Text>(false),
    ensures
        toolchain_of(triple, env, config, found, fs, msvc, rule) == toolchain_of(
            triple,
            env,
            config,
            found,
            fs,
            None,
            rule,
        ),
{
}

/// Where tools are told, the family is that of the C++ compiler.
pub proof fn lemma_family_of_cxx(
    triple: Text,
    env: EnvVars,
    config: NativeConfig,
    found: FoundTools,
    fs: FsView,
    msvc: Option<MsvcEnvironment>,
    rule: PathRule,
)
    ensures
        toolchain_of(triple, env, config, found, fs, msvc, rule) matches Ok(tools) ==> tools.family
            == family_of(tools.cxx.text, rule),
{
}

/// A variable that is set to a C compiler is what compiles C.
pub proof fn lemma_cc_from_env(
    triple: Text,
    env: EnvVars,
    config: NativeConfig,
    found: FoundTools,
    fs: FsView,
    msvc: Option<MsvcEnvironment>,
    rule: PathRule,
)
    requires
        first_of(tool_env(env, triple, "CC"@), env.value_of("CC"@)) is Some,
    ensures
        toolchain_of(triple, env, config, found, fs, msvc, rule) matches Ok(tools) ==> Some(tools.cc)
            == first_of(tool_env(env, triple, "CC"@), env.value_of("CC"@)),
{
}

} // verus!
