//! In what order the arguments of compilers and linkers stand.
use vstd::prelude::*;

use crate::env::{compile_env_flags, EnvVars};
use crate::link::{dir_args, dirs_of_kind, link_input_args, output_dirs, LinkInputsView};
use crate::link::NativeLinkContext;
use crate::native::{NativeCompilerFamily, NativeSourceLanguage};
use crate::outputs::{BuildOutput, LibraryPath};
use crate::plan::WorkView;
use crate::profile::{crt_compile_args, crt_static, profile_compile_args, shared_compile_args};
use crate::text::Text;
use crate::toolchain::ToolchainView;
use crate::tools::{compile_command, include_args, link_binary_command, link_shared_command};
use crate::tools::CompileArgsView;

verus! {

/// A word and a directory stand one behind the other at a place.
pub open spec fn is_pair(line: Seq<Text>, at: int, word: Text, dir: Text) -> bool {
    0 <= at && at + 1 < line.len() && line[at] == word && line[at + 1] == dir
}

proof fn lemma_include_args(dirs: Seq<Text>, family: NativeCompilerFamily)
    ensures
        match family {
            NativeCompilerFamily::GnuLike => {
                &&& include_args(dirs, family).len() == dirs.len() + dirs.len()
                &&& forall|i: int|
                    0 <= i < dirs.len() ==> is_pair(
                        include_args(dirs, family),
                        i + i,
                        "-I"@,
                        #[trigger] dirs[i],
                    )
            },
            NativeCompilerFamily::MsvcLike => {
                &&& include_args(dirs, family).len() == dirs.len()
                &&& forall|i: int|
                    0 <= i < dirs.len() ==> include_args(dirs, family)[i] == "/I"@
                        + #[trigger] dirs[i]
            },
        },
    decreases dirs.len(),
{
    if dirs.len() > 0 {
        let front = dirs.drop_last();
        let n = front.len() as int;
        lemma_include_args(front, family);
        let before = include_args(front, family);
        let all = include_args(dirs, family);
        assert(dirs.last() == dirs[n]);
        match family {
            NativeCompilerFamily::GnuLike => {
                assert forall|i: int| 0 <= i < dirs.len() implies is_pair(
                    all,
                    i + i,
                    "-I"@,
                    #[trigger] dirs[i],
                ) by {
                    if i < n {
                        assert(front[i] == dirs[i]);
                        assert(is_pair(before, i + i, "-I"@, front[i]));
                        assert(all[i + i] == before[i + i]);
                        assert(all[i + i + 1] == before[i + i + 1]);
                    }
                }
            },
            NativeCompilerFamily::MsvcLike => {
                assert forall|i: int| 0 <= i < dirs.len() implies all[i] == "/I"@
                    + #[trigger] dirs[i] by {
                    if i < n {
                        assert(front[i] == dirs[i]);
                        assert(all[i] == before[i]);
                    }
                }
            },
        }
    }
}

/// A compiler is told the directories of headers in their order, behind all else.
pub proof fn lemma_include_order(
    toolchain: ToolchainView,
    args: CompileArgsView,
    language: NativeSourceLanguage,
    source: Text,
    object: Text,
    depfile: Option<Text>,
    dirs: Seq<Text>,
    i: int,
)
    requires
        0 <= i < dirs.len(),
    ensures
        ({
            let line = compile_command(
                toolchain,
                args,
                language,
                source,
                object,
                depfile,
                dirs,
            ).args;
            match toolchain.family {
                NativeCompilerFamily::GnuLike => {
                    let start = line.len() - dirs.len() - dirs.len();
                    start >= 0 && line[start + i + i] == "-I"@ && line[start + i + i + 1] == dirs[i]
                },
                NativeCompilerFamily::MsvcLike => {
                    let start = line.len() - dirs.len();
                    start >= 0 && line[start + i] == "/I"@ + dirs[i]
                },
            }
        }),
{
    let line = compile_command(toolchain, args, language, source, object, depfile, dirs).args;
    let tail = include_args(dirs, toolchain.family);
    lemma_include_args(dirs, toolchain.family);
    let start = line.len() - tail.len();
    assert(line.skip(start) =~= tail);
    match toolchain.family {
        NativeCompilerFamily::GnuLike => {
            assert(is_pair(tail, i + i, "-I"@, dirs[i]));
            assert(line.skip(start)[i + i] == line[start + i + i]);
            assert(line.skip(start)[i + i + 1] == line[start + i + i + 1]);
        },
        NativeCompilerFamily::MsvcLike => {
            assert(tail[i] == "/I"@ + dirs[i]);
            assert(line.skip(start)[i] == line[start + i]);
        },
    }
}

/// What the environment and the configuration ask a compiler for stands behind what the
/// profile does, so that it has the last word.
pub proof fn lemma_compile_last_word(
    work: WorkView,
    env: EnvVars,
    language: NativeSourceLanguage,
    source: Text,
    object: Text,
    depfile: Option<Text>,
    dirs: Seq<Text>,
)
    ensures
        ({
            let family = work.toolchain.family;
            let line = compile_command(
                work.toolchain,
                work.compile_args(env, language),
                language,
                source,
                object,
                depfile,
                dirs,
            ).args;
            let profile = profile_compile_args(work.unit.profile, family) + crt_compile_args(
                crt_static(work.kind.cfgs@),
                work.unit.profile.debug_assertions,
                family,
            ) + shared_compile_args(
                work.unit.target.is_cdylib || work.unit.target.is_dylib,
                family,
            );
            let flags = compile_env_flags(
                env,
                work.kind.target_triple@,
                language,
                work.cpp_config_args,
                work.c_config_args,
                work.cxx_config_args,
            );
            let start: int = match family {
                NativeCompilerFamily::GnuLike => 0,
                NativeCompilerFamily::MsvcLike => 1,
            };
            let next = start + profile.len();
            &&& next + flags.len() <= line.len()
            &&& line.subrange(start, next) == profile
            &&& line.subrange(next, next + flags.len()) == flags
        }),
{
    let family = work.toolchain.family;
    let args = work.compile_args(env, language);
    let line = compile_command(
        work.toolchain,
        args,
        language,
        source,
        object,
        depfile,
        dirs,
    ).args;
    let profile = args.profile_args;
    let flags = args.env_args;
    let start: int = match family {
        NativeCompilerFamily::GnuLike => 0,
        NativeCompilerFamily::MsvcLike => 1,
    };
    let next = start + profile.len();
    let rest = args.feature_args + args.cfg_args + args.native_define_args;
    assert(args.all() =~= profile + flags + rest);
    assert(line.subrange(start, start + args.all().len()) =~= args.all());
    assert(line.subrange(start, next) =~= profile) by {
        assert forall|i: int| 0 <= i < profile.len() implies line[start + i] == profile[i] by {
            assert(line.subrange(start, start + args.all().len())[i] == args.all()[i]);
        }
    }
    assert(line.subrange(next, next + flags.len()) =~= flags) by {
        assert forall|i: int| 0 <= i < flags.len() implies line[next + i] == flags[i] by {
            assert(line.subrange(start, start + args.all().len())[profile.len() + i]
                == args.all()[profile.len() + i]);
        }
    }
}

/// What the environment and the configuration ask a linker for stands behind what the
/// profile does, so that it has the last word.
pub proof fn lemma_link_last_word(
    toolchain: ToolchainView,
    profile: Seq<Text>,
    flags: Seq<Text>,
    cpp: bool,
    objects: Seq<Text>,
    output: Text,
    inputs: LinkInputsView,
    context: NativeLinkContext,
)
    ensures
        ({
            let binary = link_binary_command(
                toolchain,
                profile,
                flags,
                cpp,
                objects,
                output,
                inputs,
                context,
            ).args;
            let shared = link_shared_command(
                toolchain,
                profile,
                flags,
                cpp,
                objects,
                output,
                inputs,
                context,
            ).args;
            let lead: int = match toolchain.family {
                NativeCompilerFamily::GnuLike => 0,
                NativeCompilerFamily::MsvcLike => 1,
            };
            &&& stand_at(binary, lead + objects.len(), profile, flags)
            &&& stand_at(shared, 2 * lead + objects.len(), profile, flags)
        }),
{
    let lead: int = match toolchain.family {
        NativeCompilerFamily::GnuLike => 0,
        NativeCompilerFamily::MsvcLike => 1,
    };
    let binary = link_binary_command(
        toolchain,
        profile,
        flags,
        cpp,
        objects,
        output,
        inputs,
        context,
    ).args;
    let shared = link_shared_command(
        toolchain,
        profile,
        flags,
        cpp,
        objects,
        output,
        inputs,
        context,
    ).args;
    let a = lead + objects.len();
    let b = 2 * lead + objects.len();
    let n = profile.len() as int;
    let m = flags.len() as int;
    assert(binary.subrange(a, a + n) =~= profile);
    assert(binary.subrange(a + n, a + n + m) =~= flags);
    assert(shared.subrange(b, b + n) =~= profile);
    assert(shared.subrange(b + n, b + n + m) =~= flags);
}

/// Two lists stand in a third from a place on, one directly behind the other.
pub open spec fn stand_at(line: Seq<Text>, at: int, a: Seq<Text>, b: Seq<Text>) -> bool {
    &&& at + a.len() + b.len() <= line.len()
    &&& line.subrange(at, at + a.len()) == a
    &&& line.subrange(at + a.len(), at + a.len() + b.len()) == b
}

proof fn lemma_dir_args(dirs: Seq<Text>, family: NativeCompilerFamily)
    ensures
        match family {
            NativeCompilerFamily::GnuLike => {
                &&& dir_args(dirs, family).len() == dirs.len() + dirs.len()
                &&& forall|i: int|
                    0 <= i < dirs.len() ==> is_pair(
                        dir_args(dirs, family),
                        i + i,
                        "-L"@,
                        #[trigger] dirs[i],
                    )
            },
            NativeCompilerFamily::MsvcLike => {
                &&& dir_args(dirs, family).len() == dirs.len()
                &&& forall|i: int|
                    0 <= i < dirs.len() ==> dir_args(dirs, family)[i] == "/LIBPATH:"@
                        + #[trigger] dirs[i]
            },
        },
    decreases dirs.len(),
{
    if dirs.len() > 0 {
        let front = dirs.drop_last();
        let n = front.len() as int;
        lemma_dir_args(front, family);
        let before = dir_args(front, family);
        let all = dir_args(dirs, family);
        assert(dirs.last() == dirs[n]);
        match family {
            NativeCompilerFamily::GnuLike => {
                assert forall|i: int| 0 <= i < dirs.len() implies is_pair(
                    all,
                    i + i,
                    "-L"@,
                    #[trigger] dirs[i],
                ) by {
                    if i < n {
                        assert(front[i] == dirs[i]);
                        assert(all[i + i] == before[i + i]);
                        assert(all[i + i + 1] == before[i + i + 1]);
                    }
                }
            },
            NativeCompilerFamily::MsvcLike => {
                assert forall|i: int| 0 <= i < dirs.len() implies all[i] == "/LIBPATH:"@
                    + #[trigger] dirs[i] by {
                    if i < n {
                        assert(front[i] == dirs[i]);
                        assert(all[i] == before[i]);
                    }
                }
            },
        }
    }
}

/// A linker looks for libraries in the directories that were built first, then in the
/// others that build scripts name, and then in those of the manifest, each in their order.
pub proof fn lemma_search_order(
    family: NativeCompilerFamily,
    inputs: LinkInputsView,
    context: NativeLinkContext,
    i: int,
)
    requires
        0 <= i < output_dirs(inputs.build_outputs, true).len() + output_dirs(
            inputs.build_outputs,
            false,
        ).len() + inputs.manifest_library_search_dirs.len(),
    ensures
        ({
            let made = output_dirs(inputs.build_outputs, true);
            let others = output_dirs(inputs.build_outputs, false);
            let dir = if i < made.len() {
                made[i]
            } else if i < made.len() + others.len() {
                others[i - made.len()]
            } else {
                inputs.manifest_library_search_dirs[i - made.len() - others.len()]
            };
            let line = link_input_args(family, inputs, context);
            match family {
                NativeCompilerFamily::GnuLike => line[i + i] == "-L"@ && line[i + i + 1] == dir,
                NativeCompilerFamily::MsvcLike => line[i] == "/LIBPATH:"@ + dir,
            }
        }),
{
    let made = output_dirs(inputs.build_outputs, true);
    let others = output_dirs(inputs.build_outputs, false);
    let dirs = made + others + inputs.manifest_library_search_dirs;
    let lead = dir_args(dirs, family);
    let line = link_input_args(family, inputs, context);
    lemma_dir_args(dirs, family);
    assert(line.take(lead.len() as int) =~= lead);
    let dir = dirs[i];
    match family {
        NativeCompilerFamily::GnuLike => {
            assert(is_pair(lead, i + i, "-L"@, dirs[i]));
            assert(line.take(lead.len() as int)[i + i] == line[i + i]);
            assert(line.take(lead.len() as int)[i + i + 1] == line[i + i + 1]);
        },
        NativeCompilerFamily::MsvcLike => {
            assert(lead[i] == "/LIBPATH:"@ + dir);
            assert(line.take(lead.len() as int)[i] == line[i]);
        },
    }
}

proof fn lemma_kind_from(list: Seq<LibraryPath>, built: bool, dir: Text)
    requires
        dirs_of_kind(list, built).contains(dir),
    ensures
        exists|i: int|
            0 <= i < list.len() && match #[trigger] list[i] {
                LibraryPath::CargoArtifact(d) => built && d@ == dir,
                LibraryPath::External(d) => !built && d@ == dir,
            },
    decreases list.len(),
{
    if list.len() > 0 {
        let front = list.drop_last();
        let before = dirs_of_kind(front, built);
        let all = dirs_of_kind(list, built);
        let k = choose|k: int| 0 <= k < all.len() && all[k] == dir;
        if k < before.len() {
            assert(before[k] == dir);
            lemma_kind_from(front, built, dir);
            let i = choose|i: int|
                0 <= i < front.len() && match #[trigger] front[i] {
                    LibraryPath::CargoArtifact(d) => built && d@ == dir,
                    LibraryPath::External(d) => !built && d@ == dir,
                };
            assert(list[i] == front[i]);
        } else {
            assert(list[list.len() - 1] == list.last());
        }
    } else {
        assert(false);
    }
}

/// The directories that were built are those that build scripts name as such, and the
/// others are the others.
pub proof fn lemma_dirs_from(list: Seq<BuildOutput>, built: bool, dir: Text)
    requires
        output_dirs(list, built).contains(dir),
    ensures
        exists|k: int, i: int|
            0 <= k < list.len() && 0 <= i < list[k].library_paths@.len() && match
                #[trigger] list[k].library_paths@[i] {
                LibraryPath::CargoArtifact(d) => built && d@ == dir,
                LibraryPath::External(d) => !built && d@ == dir,
            },
    decreases list.len(),
{
    if list.len() > 0 {
        let front = list.drop_last();
        let before = output_dirs(front, built);
        let more = dirs_of_kind(list.last().library_paths@, built);
        let all = output_dirs(list, built);
        let n = choose|n: int| 0 <= n < all.len() && all[n] == dir;
        if n < before.len() {
            assert(before[n] == dir);
            lemma_dirs_from(front, built, dir);
            let (k, i) = choose|k: int, i: int|
                0 <= k < front.len() && 0 <= i < front[k].library_paths@.len() && match
                    #[trigger] front[k].library_paths@[i] {
                    LibraryPath::CargoArtifact(d) => built && d@ == dir,
                    LibraryPath::External(d) => !built && d@ == dir,
                };
            assert(list[k].library_paths@[i] == front[k].library_paths@[i]);
        } else {
            assert(more[n - before.len()] == dir);
            lemma_kind_from(list.last().library_paths@, built, dir);
            let last = list[list.len() - 1].library_paths@;
            let i = choose|i: int|
                0 <= i < last.len() && match #[trigger] last[i] {
                    LibraryPath::CargoArtifact(d) => built && d@ == dir,
                    LibraryPath::External(d) => !built && d@ == dir,
                };
            assert(list[list.len() - 1].library_paths@[i] == last[i]);
        }
    } else {
        assert(false);
    }
}

} // verus!
